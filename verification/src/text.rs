//! Verified text utilities: substring search, decimal rendering of counts,
//! percentage computation and language-identifier matching.

use vstd::prelude::*;

verus! {

/// Whether `needle` occurs in `hay` starting at position `i`.
pub open spec fn occurs_at(hay: Seq<char>, needle: Seq<char>, i: int) -> bool {
    0 <= i && i + needle.len() <= hay.len() && hay.subrange(i, i + needle.len() as int)
        == needle
}

/// Whether `needle` occurs anywhere in `hay`.
pub open spec fn contains_seq(hay: Seq<char>, needle: Seq<char>) -> bool {
    exists|i: int| occurs_at(hay, needle, i)
}

/// Whether `needle` occurs in `hay` starting exactly at `i`.
fn match_at(hay: &str, needle: &str, i: usize, n: usize, m: usize) -> (r: bool)
    requires
        n == hay@.len(),
        m == needle@.len(),
        i + m <= n,
    ensures
        r == occurs_at(hay@, needle@, i as int),
{
    let mut j: usize = 0;
    while j < m
        invariant
            n == hay@.len(),
            m == needle@.len(),
            i + m <= n,
            j <= m,
            forall|k: int| 0 <= k < j ==> hay@[i + k] == needle@[k],
        decreases m - j,
    {
        if hay.get_char(i + j) != needle.get_char(j) {
            assert(hay@.subrange(i as int, i + m as int)[j as int] != needle@[j as int]);
            return false;
        }
        j = j + 1;
    }
    assert(hay@.subrange(i as int, i + m as int) =~= needle@);
    true
}

/// Substring search over characters.
pub fn contains_str(hay: &str, needle: &str) -> (r: bool)
    ensures
        r == contains_seq(hay@, needle@),
{
    let n = hay.unicode_len();
    let m = needle.unicode_len();
    if m > n {
        assert(forall|i: int| !occurs_at(hay@, needle@, i));
        return false;
    }
    if m == 0 {
        assert(occurs_at(hay@, needle@, 0)) by {
            assert(hay@.subrange(0, 0) =~= needle@);
        }
        return true;
    }
    let limit = n - m;
    let mut i: usize = 0;
    while i <= limit
        invariant
            n == hay@.len(),
            m == needle@.len(),
            1 <= m <= n,
            limit == n - m,
            i <= limit + 1,
            forall|k: int| 0 <= k < i ==> !occurs_at(hay@, needle@, k),
        decreases limit + 1 - i,
    {
        if match_at(hay, needle, i, n, m) {
            return true;
        }
        i = i + 1;
    }
    assert(forall|k: int| i <= k ==> !occurs_at(hay@, needle@, k));
    false
}

/// The character for one decimal digit.
pub open spec fn digit_char(d: int) -> char {
    if d == 0 {
        '0'
    } else if d == 1 {
        '1'
    } else if d == 2 {
        '2'
    } else if d == 3 {
        '3'
    } else if d == 4 {
        '4'
    } else if d == 5 {
        '5'
    } else if d == 6 {
        '6'
    } else if d == 7 {
        '7'
    } else if d == 8 {
        '8'
    } else {
        '9'
    }
}

/// The decimal rendering of a natural number, most significant digit first.
pub open spec fn spec_dec(n: nat) -> Seq<char>
    decreases n,
{
    if n < 10 {
        seq![digit_char(n as int)]
    } else {
        spec_dec(n / 10).push(digit_char((n % 10) as int))
    }
}

fn digit_str(d: u64) -> (r: &'static str)
    requires
        d < 10,
    ensures
        r@ == seq![digit_char(d as int)],
{
    let s: &'static str = match d {
        0 => "0",
        1 => "1",
        2 => "2",
        3 => "3",
        4 => "4",
        5 => "5",
        6 => "6",
        7 => "7",
        8 => "8",
        _ => "9",
    };
    proof {
        reveal_strlit("0");
        reveal_strlit("1");
        reveal_strlit("2");
        reveal_strlit("3");
        reveal_strlit("4");
        reveal_strlit("5");
        reveal_strlit("6");
        reveal_strlit("7");
        reveal_strlit("8");
        reveal_strlit("9");
        assert(s@ =~= seq![digit_char(d as int)]);
    }
    s
}

/// Renders a count in decimal.
pub fn dec_u64(n: u64) -> (r: String)
    ensures
        r@ == spec_dec(n as nat),
    decreases n,
{
    if n < 10 {
        digit_str(n).to_owned()
    } else {
        let q = dec_u64(n / 10);
        let r = q.concat(digit_str(n % 10));
        proof {
            assert(spec_dec(n as nat) =~= spec_dec((n / 10) as nat) + seq![
                digit_char((n % 10) as int),
            ]);
        }
        r
    }
}

/// The coverage ratio `d / t` as a percentage, rounded to the nearest whole
/// number (halves round up).
pub open spec fn spec_percent(d: nat, t: nat) -> nat
    recommends
        t >= 1,
{
    (200 * d + t) / (2 * t)
}

/// Computes the rounded percentage of `d` out of `t`.
pub fn percent(d: usize, t: usize) -> (p: u64)
    requires
        d <= t,
        t >= 1,
    ensures
        p == spec_percent(d as nat, t as nat),
        p <= 100,
{
    let wide: u128 = (200u128 * (d as u128) + (t as u128)) / (2u128 * (t as u128));
    proof {
        assert((200 * (d as nat) + t as nat) / (2 * (t as nat)) <= 100) by (nonlinear_arith)
            requires
                d <= t,
                t >= 1,
        ;
    }
    wide as u64
}

/// Whether a language identifier selects the primary supported language:
/// it is empty, or spells "python" in any mix of case.
pub open spec fn lang_matches(s: Seq<char>) -> bool {
    s.len() == 0 || (s.len() == 6 && (s[0] == 'p' || s[0] == 'P') && (s[1] == 'y' || s[1] == 'Y')
        && (s[2] == 't' || s[2] == 'T') && (s[3] == 'h' || s[3] == 'H') && (s[4] == 'o' || s[4]
        == 'O') && (s[5] == 'n' || s[5] == 'N'))
}

/// Decides whether the request's language is supported here.
pub fn is_supported_language(lang: &String) -> (r: bool)
    ensures
        r == lang_matches(lang@),
{
    let s = lang.as_str();
    let n = s.unicode_len();
    if n == 0 {
        return true;
    }
    if n != 6 {
        return false;
    }
    let c0 = s.get_char(0);
    let c1 = s.get_char(1);
    let c2 = s.get_char(2);
    let c3 = s.get_char(3);
    let c4 = s.get_char(4);
    let c5 = s.get_char(5);
    (c0 == 'p' || c0 == 'P') && (c1 == 'y' || c1 == 'Y') && (c2 == 't' || c2 == 'T') && (c3 == 'h'
        || c3 == 'H') && (c4 == 'o' || c4 == 'O') && (c5 == 'n' || c5 == 'N')
}

/// Splitting on a separator, empty pieces dropped: the recursion walks the
/// text with the start of the current piece and the pieces already taken.
pub open spec fn split_on_rec(
    s: Seq<char>,
    sep: char,
    i: int,
    start: int,
    acc: Seq<Seq<char>>,
) -> Seq<Seq<char>>
    recommends
        0 <= start <= i <= s.len(),
    decreases s.len() - i,
{
    if i >= s.len() {
        if start < i {
            acc.push(s.subrange(start, i))
        } else {
            acc
        }
    } else if s[i] == sep {
        if start < i {
            split_on_rec(s, sep, i + 1, i + 1, acc.push(s.subrange(start, i)))
        } else {
            split_on_rec(s, sep, i + 1, i + 1, acc)
        }
    } else {
        split_on_rec(s, sep, i + 1, start, acc)
    }
}

/// The nonempty pieces of `s` between occurrences of `sep`, in order.
pub open spec fn split_on(s: Seq<char>, sep: char) -> Seq<Seq<char>> {
    split_on_rec(s, sep, 0, 0, seq![])
}

/// Splits a string at a separator character, dropping empty pieces.
pub fn split_on_exec(s: &str, sep: char) -> (pieces: Vec<String>)
    ensures
        string_views(pieces@) == split_on(s@, sep),
{
    let n = s.unicode_len();
    let mut acc: Vec<String> = Vec::new();
    proof {
        assert(string_views(acc@) =~= Seq::<Seq<char>>::empty());
        assert(Seq::<Seq<char>>::empty() =~= seq![]);
    }
    let mut i: usize = 0;
    let mut start: usize = 0;
    while i < n
        invariant
            n == s@.len(),
            start <= i <= n,
            split_on(s@, sep) == split_on_rec(s@, sep, i as int, start as int, string_views(acc@)),
        decreases n - i,
    {
        if s.get_char(i) == sep {
            if start < i {
                let piece = s.substring_char(start, i).to_owned();
                let ghost pv = piece@;
                let ghost prev = acc@;
                acc.push(piece);
                proof {
                    assert(string_views(prev.push(piece)) =~= string_views(prev).push(pv));
                }
            }
            i = i + 1;
            start = i;
        } else {
            i = i + 1;
        }
    }
    if start < n {
        let piece = s.substring_char(start, n).to_owned();
        let ghost pv = piece@;
        let ghost prev = acc@;
        acc.push(piece);
        proof {
            assert(string_views(prev.push(piece)) =~= string_views(prev).push(pv));
        }
    }
    acc
}

/// The first piece that contains `needle`, if any.
pub open spec fn first_with(pieces: Seq<Seq<char>>, needle: Seq<char>) -> Option<Seq<char>>
    decreases pieces,
{
    if pieces.len() == 0 {
        None
    } else if contains_seq(pieces[0], needle) {
        Some(pieces[0])
    } else {
        first_with(pieces.drop_first(), needle)
    }
}

/// Finds the first piece containing `needle`.
pub fn first_piece_with(pieces: &Vec<String>, needle: &str) -> (r: Option<String>)
    ensures
        match first_with(string_views(pieces@), needle@) {
            Some(sl) => r matches Some(l) && l@ == sl,
            None => r is None,
        },
{
    let ghost views = string_views(pieces@);
    proof {
        assert(views.skip(0) =~= views);
    }
    let mut i: usize = 0;
    while i < pieces.len()
        invariant
            views == string_views(pieces@),
            i <= pieces@.len(),
            first_with(views, needle@) == first_with(views.skip(i as int), needle@),
        decreases pieces@.len() - i,
    {
        proof {
            assert(views.skip(i as int)[0] == views[i as int]);
            assert(views[i as int] == pieces@[i as int]@);
        }
        if contains_str(pieces[i].as_str(), needle) {
            return Some(pieces[i].clone());
        }
        proof {
            assert(views.skip(i as int).drop_first() =~= views.skip(i + 1));
        }
        i = i + 1;
    }
    proof {
        assert(views.skip(pieces@.len() as int) =~= Seq::<Seq<char>>::empty());
    }
    None
}

/// The character sequences behind a vector of strings.
pub open spec fn string_views(v: Seq<String>) -> Seq<Seq<char>> {
    v.map_values(|s: String| s@)
}

/// Whether some string in `v` has exactly the characters `s`.
pub open spec fn seq_has_string(v: Seq<String>, s: Seq<char>) -> bool {
    exists|i: int| 0 <= i < v.len() && v[i]@ == s
}

/// Whether the vector holds a string equal to `needle`.
pub fn vec_has_string(v: &Vec<String>, needle: &str) -> (r: bool)
    ensures
        r == seq_has_string(v@, needle@),
{
    let owned: String = needle.to_owned();
    let mut i: usize = 0;
    while i < v.len()
        invariant
            i <= v@.len(),
            owned@ == needle@,
            forall|k: int| 0 <= k < i ==> v@[k]@ != needle@,
        decreases v@.len() - i,
    {
        if v[i] == owned {
            return true;
        }
        i = i + 1;
    }
    false
}

} // verus!
