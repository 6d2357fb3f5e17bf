//! Character and string helpers shared by the registry core.
//!
//! Package-name canonicalization (ASCII case folding with `-` and `_`
//! identified) and the small string-building blocks that the rest of the
//! library uses to assemble stable messages and storage keys.

use vstd::prelude::*;

verus! {

/// Relies on std's `String::push`: appends exactly the one given character.
#[verifier::external_body]
pub fn push_char(s: &mut String, c: char)
    ensures
        final(s)@ == old(s)@ + seq![c],
{
    s.push(c);
}

/// ASCII case folding of a single character; other characters are unchanged.
pub open spec fn lower_char(c: char) -> char {
    match c {
        'A' => 'a',
        'B' => 'b',
        'C' => 'c',
        'D' => 'd',
        'E' => 'e',
        'F' => 'f',
        'G' => 'g',
        'H' => 'h',
        'I' => 'i',
        'J' => 'j',
        'K' => 'k',
        'L' => 'l',
        'M' => 'm',
        'N' => 'n',
        'O' => 'o',
        'P' => 'p',
        'Q' => 'q',
        'R' => 'r',
        'S' => 's',
        'T' => 't',
        'U' => 'u',
        'V' => 'v',
        'W' => 'w',
        'X' => 'x',
        'Y' => 'y',
        'Z' => 'z',
        _ => c,
    }
}

/// Canonical form of one package-name character: case-folded, with `-`
/// identified with `_` so that punctuation variants collide.
pub open spec fn canon_char(c: char) -> char {
    if c == '-' {
        '_'
    } else {
        lower_char(c)
    }
}

/// ASCII case folding of a whole character sequence.
pub open spec fn lower_seq(s: Seq<char>) -> Seq<char> {
    s.map(|_i: int, c: char| lower_char(c))
}

/// Canonical form of a package name, applied character by character.
pub open spec fn canon_seq(s: Seq<char>) -> Seq<char> {
    s.map(|_i: int, c: char| canon_char(c))
}

pub fn lower_char_exec(c: char) -> (r: char)
    ensures
        r == lower_char(c),
{
    match c {
        'A' => 'a',
        'B' => 'b',
        'C' => 'c',
        'D' => 'd',
        'E' => 'e',
        'F' => 'f',
        'G' => 'g',
        'H' => 'h',
        'I' => 'i',
        'J' => 'j',
        'K' => 'k',
        'L' => 'l',
        'M' => 'm',
        'N' => 'n',
        'O' => 'o',
        'P' => 'p',
        'Q' => 'q',
        'R' => 'r',
        'S' => 's',
        'T' => 't',
        'U' => 'u',
        'V' => 'v',
        'W' => 'w',
        'X' => 'x',
        'Y' => 'y',
        'Z' => 'z',
        _ => c,
    }
}

pub fn canon_char_exec(c: char) -> (r: char)
    ensures
        r == canon_char(c),
{
    if c == '-' {
        '_'
    } else {
        lower_char_exec(c)
    }
}

/// ASCII-lowercases a string.
pub fn lower_str(s: &str) -> (r: String)
    ensures
        r@ == lower_seq(s@),
{
    let n = s.unicode_len();
    let mut out = String::new();
    let mut i: usize = 0;
    while i < n
        invariant
            n == s@.len(),
            i <= n,
            out@ =~= lower_seq(s@.take(i as int)),
        decreases n - i,
    {
        let c = s.get_char(i);
        push_char(&mut out, lower_char_exec(c));
        assert(lower_seq(s@.take(i + 1)) =~= lower_seq(s@.take(i as int)) + seq![lower_char(s@[i as int])]);
        i = i + 1;
    }
    assert(s@.take(n as int) =~= s@);
    out
}

/// The canonical (squat-resistant) form of a package name.
pub fn canon_crate_name(s: &str) -> (r: String)
    ensures
        r@ == canon_seq(s@),
{
    let n = s.unicode_len();
    let mut out = String::new();
    let mut i: usize = 0;
    while i < n
        invariant
            n == s@.len(),
            i <= n,
            out@ =~= canon_seq(s@.take(i as int)),
        decreases n - i,
    {
        let c = s.get_char(i);
        push_char(&mut out, canon_char_exec(c));
        assert(canon_seq(s@.take(i + 1)) =~= canon_seq(s@.take(i as int)) + seq![canon_char(s@[i as int])]);
        i = i + 1;
    }
    assert(s@.take(n as int) =~= s@);
    out
}

/// Two names are the same package name when their canonical forms agree.
pub open spec fn canon_eq(a: Seq<char>, b: Seq<char>) -> bool {
    canon_seq(a) == canon_seq(b)
}

/// Two logins are the same team login when their case-folded forms agree.
pub open spec fn lower_eq(a: Seq<char>, b: Seq<char>) -> bool {
    lower_seq(a) == lower_seq(b)
}

/// Case folding is idempotent: a folded character has no uppercase left.
pub proof fn lemma_lower_seq_idempotent(s: Seq<char>)
    ensures
        lower_seq(lower_seq(s)) == lower_seq(s),
{
    assert(lower_seq(lower_seq(s)) =~= lower_seq(s)) by {
        assert forall|i: int| 0 <= i < s.len() implies lower_char(lower_char(s[i])) == lower_char(
            s[i],
        ) by {
        }
    }
}

/// The decimal digit character for a value below ten.
pub open spec fn dec_digit(d: int) -> char {
    if d == 0 {
        '0'
    } else if d == 1 {
        '1'
    } else if d == 2 {
        '2'
    } else if d == 3 {
        '3'
    } else if d == 4 {
        '4'
    } else if d == 5 {
        '5'
    } else if d == 6 {
        '6'
    } else if d == 7 {
        '7'
    } else if d == 8 {
        '8'
    } else {
        '9'
    }
}

/// The decimal rendering of a non-negative integer, most significant digit
/// first, with no leading zeros (a lone zero for zero itself).
pub open spec fn dec_str(n: int) -> Seq<char>
    decreases n,
{
    if n < 10 {
        seq![dec_digit(n)]
    } else {
        dec_str(n / 10) + seq![dec_digit(n % 10)]
    }
}

fn dec_digit_exec(d: u64) -> (r: char)
    requires
        d < 10,
    ensures
        r == dec_digit(d as int),
{
    if d == 0 {
        '0'
    } else if d == 1 {
        '1'
    } else if d == 2 {
        '2'
    } else if d == 3 {
        '3'
    } else if d == 4 {
        '4'
    } else if d == 5 {
        '5'
    } else if d == 6 {
        '6'
    } else if d == 7 {
        '7'
    } else if d == 8 {
        '8'
    } else {
        '9'
    }
}

/// Renders an integer in decimal.
pub fn u64_to_dec(n: u64) -> (r: String)
    ensures
        r@ == dec_str(n as int),
    decreases n,
{
    if n < 10 {
        let mut s = String::new();
        push_char(&mut s, dec_digit_exec(n));
        s
    } else {
        let mut s = u64_to_dec(n / 10);
        push_char(&mut s, dec_digit_exec(n % 10));
        s
    }
}

/// The given pieces joined with the separator between neighbours.
pub open spec fn join_with(items: Seq<Seq<char>>, sep: Seq<char>) -> Seq<char>
    decreases items.len(),
{
    if items.len() == 0 {
        Seq::empty()
    } else if items.len() == 1 {
        items[0]
    } else {
        items[0] + sep + join_with(items.drop_first(), sep)
    }
}

/// The given pieces joined with a comma and a space between neighbours.
pub open spec fn comma_join(items: Seq<Seq<char>>) -> Seq<char> {
    join_with(items, ", "@)
}

/// Joins strings with the given separator between neighbours.
pub fn join_with_exec(items: &[String], sep: &str) -> (r: String)
    ensures
        r@ == join_with(items@.map_values(|x: String| x@), sep@),
    decreases items@.len(),
{
    if items.len() == 0 {
        String::new()
    } else if items.len() == 1 {
        vstd::slice::slice_index_get(items, 0).clone()
    } else {
        let mut s = vstd::slice::slice_index_get(items, 0).clone();
        s.append(sep);
        let rest = vstd::slice::slice_subrange(items, 1, items.len());
        s.append(join_with_exec(rest, sep).as_str());
        assert(rest@.map_values(|x: String| x@) =~= items@.map_values(
            |x: String| x@,
        ).drop_first());
        s
    }
}

/// Joins strings with `, ` between neighbours.
pub fn comma_join_exec(items: &[&str]) -> (r: String)
    ensures
        r@ == comma_join(items@.map_values(|x: &str| x@)),
    decreases items@.len(),
{
    if items.len() == 0 {
        String::new()
    } else if items.len() == 1 {
        String::from_str(*vstd::slice::slice_index_get(items, 0))
    } else {
        let mut s = String::from_str(*vstd::slice::slice_index_get(items, 0));
        s.append(", ");
        let rest = vstd::slice::slice_subrange(items, 1, items.len());
        s.append(comma_join_exec(rest).as_str());
        assert(rest@.map_values(|x: &str| x@) =~= items@.map_values(
            |x: &str| x@,
        ).drop_first());
        s
    }
}

/// Whether `p` is a prefix of `s`.
pub open spec fn has_prefix(s: Seq<char>, p: Seq<char>) -> bool {
    s.len() >= p.len() && s.take(p.len() as int) == p
}

/// Prefix test over the characters of two strings.
pub fn str_has_prefix(s: &str, p: &str) -> (r: bool)
    ensures
        r == has_prefix(s@, p@),
{
    let sn = s.unicode_len();
    let pn = p.unicode_len();
    if sn < pn {
        return false;
    }
    let mut i: usize = 0;
    while i < pn
        invariant
            sn == s@.len(),
            pn == p@.len(),
            pn <= sn,
            i <= pn,
            forall|j: int| 0 <= j < i ==> s@[j] == p@[j],
        decreases pn - i,
    {
        if s.get_char(i) != p.get_char(i) {
            assert(s@.take(pn as int)[i as int] != p@[i as int]);
            return false;
        }
        i = i + 1;
    }
    assert(s@.take(pn as int) =~= p@);
    true
}

} // verus!
