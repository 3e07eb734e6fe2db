//! Verified helpers for working with `&str` and `String` at the character
//! level: equality, prefix tests, last-index search, path stems, ASCII
//! lowercasing and decimal rendering.

use vstd::prelude::*;
use vstd::string::StrSliceExecFns;

verus! {

/// Relies on std's `String::push`: appends the given character to the end of
/// the string.
pub assume_specification[ String::push ](s: &mut String, c: char)
    ensures
        final (s)@ == old(s)@.push(c),
;

/// ASCII lowercasing of a single character; anything but 'A'..='Z' is kept.
pub open spec fn spec_lower_char(c: char) -> char {
    match c {
        'A' => 'a',
        'B' => 'b',
        'C' => 'c',
        'D' => 'd',
        'E' => 'e',
        'F' => 'f',
        'G' => 'g',
        'H' => 'h',
        'I' => 'i',
        'J' => 'j',
        'K' => 'k',
        'L' => 'l',
        'M' => 'm',
        'N' => 'n',
        'O' => 'o',
        'P' => 'p',
        'Q' => 'q',
        'R' => 'r',
        'S' => 's',
        'T' => 't',
        'U' => 'u',
        'V' => 'v',
        'W' => 'w',
        'X' => 'x',
        'Y' => 'y',
        'Z' => 'z',
        _ => c,
    }
}

#[verifier::when_used_as_spec(spec_lower_char)]
pub fn lower_char(c: char) -> (r: char)
    ensures
        r == spec_lower_char(c),
{
    match c {
        'A' => 'a',
        'B' => 'b',
        'C' => 'c',
        'D' => 'd',
        'E' => 'e',
        'F' => 'f',
        'G' => 'g',
        'H' => 'h',
        'I' => 'i',
        'J' => 'j',
        'K' => 'k',
        'L' => 'l',
        'M' => 'm',
        'N' => 'n',
        'O' => 'o',
        'P' => 'p',
        'Q' => 'q',
        'R' => 'r',
        'S' => 's',
        'T' => 't',
        'U' => 'u',
        'V' => 'v',
        'W' => 'w',
        'X' => 'x',
        'Y' => 'y',
        'Z' => 'z',
        _ => c,
    }
}

/// Character-for-character string equality.
pub fn str_eq(a: &str, b: &str) -> (r: bool)
    ensures
        r == (a@ == b@),
{
    let an = a.unicode_len();
    let bn = b.unicode_len();
    if an != bn {
        assert(a@ != b@) by {
            assert(a@.len() != b@.len());
        }
        return false;
    }
    let mut i: usize = 0;
    while i < an
        invariant
            an == a@.len(),
            an == b@.len(),
            i <= an,
            forall|j: int| 0 <= j < i ==> a@[j] == b@[j],
        decreases an - i,
    {
        if a.get_char(i) != b.get_char(i) {
            return false;
        }
        i = i + 1;
    }
    proof {
        assert(a@ =~= b@);
    }
    true
}

/// `p` is a prefix of `s`.
pub open spec fn spec_starts_with(s: Seq<char>, p: Seq<char>) -> bool {
    p.len() <= s.len() && s.subrange(0, p.len() as int) == p
}

pub fn starts_with_str(s: &str, p: &str) -> (r: bool)
    ensures
        r == spec_starts_with(s@, p@),
{
    let sn = s.unicode_len();
    let pn = p.unicode_len();
    if pn > sn {
        return false;
    }
    let mut i: usize = 0;
    while i < pn
        invariant
            sn == s@.len(),
            pn == p@.len(),
            pn <= sn,
            i <= pn,
            forall|j: int| 0 <= j < i ==> s@[j] == p@[j],
        decreases pn - i,
    {
        if s.get_char(i) != p.get_char(i) {
            assert(s@.subrange(0, p@.len() as int)[i as int] != p@[i as int]);
            return false;
        }
        i = i + 1;
    }
    proof {
        assert(s@.subrange(0, p@.len() as int) =~= p@);
    }
    true
}

/// Index of the last occurrence of `c` in `s`, or -1 when `c` does not occur.
pub open spec fn spec_last_index(s: Seq<char>, c: char) -> int
    decreases s.len(),
{
    if s.len() == 0 {
        -1
    } else if s.last() == c {
        s.len() - 1
    } else {
        spec_last_index(s.drop_last(), c)
    }
}

pub proof fn lemma_last_index(s: Seq<char>, c: char)
    ensures
        -1 <= spec_last_index(s, c) < s.len(),
        spec_last_index(s, c) >= 0 ==> s[spec_last_index(s, c)] == c,
        forall|j: int| spec_last_index(s, c) < j < s.len() ==> s[j] != c,
    decreases s.len(),
{
    if s.len() > 0 && s.last() != c {
        lemma_last_index(s.drop_last(), c);
        assert forall|j: int| spec_last_index(s, c) < j < s.len() implies s[j] != c by {
            if j < s.len() - 1 {
                assert(s.drop_last()[j] == s[j]);
            }
        }
    }
}

pub fn last_index_of(s: &str, c: char) -> (r: Option<usize>)
    ensures
        match r {
            Some(i) => i == spec_last_index(s@, c),
            None => spec_last_index(s@, c) == -1,
        },
{
    let n = s.unicode_len();
    let mut i: usize = n;
    while i > 0
        invariant
            n == s@.len(),
            i <= n,
            forall|j: int| i <= j < n ==> s@[j] != c,
        decreases i,
    {
        i = i - 1;
        if s.get_char(i) == c {
            proof {
                lemma_last_index(s@, c);
                let li = spec_last_index(s@, c);
                if li < i {
                    assert(s@[i as int] != c);
                }
                if li > i {
                    assert(s@[li] != c);
                }
            }
            return Some(i);
        }
    }
    proof {
        lemma_last_index(s@, c);
        let li = spec_last_index(s@, c);
        if li >= 0 {
            assert(s@[li] != c);
        }
    }
    None
}

/// Index of the first occurrence of `c` in `s`, or -1 when `c` does not
/// occur.
pub open spec fn spec_first_index(s: Seq<char>, c: char) -> int
    decreases s.len(),
{
    if s.len() == 0 {
        -1
    } else if s[0] == c {
        0
    } else {
        let r = spec_first_index(s.drop_first(), c);
        if r == -1 {
            -1
        } else {
            r + 1
        }
    }
}

pub proof fn lemma_first_index(s: Seq<char>, c: char)
    ensures
        -1 <= spec_first_index(s, c) < s.len(),
        spec_first_index(s, c) >= 0 ==> s[spec_first_index(s, c)] == c,
        forall|j: int| 0 <= j < spec_first_index(s, c) ==> s[j] != c,
        spec_first_index(s, c) == -1 ==> forall|j: int| 0 <= j < s.len() ==> s[j] != c,
    decreases s.len(),
{
    if s.len() > 0 && s[0] != c {
        lemma_first_index(s.drop_first(), c);
        assert forall|j: int| 0 <= j < spec_first_index(s, c) implies s[j] != c by {
            if j > 0 {
                assert(s.drop_first()[j - 1] == s[j]);
            }
        }
        if spec_first_index(s, c) == -1 {
            assert forall|j: int| 0 <= j < s.len() implies s[j] != c by {
                if j > 0 {
                    assert(s.drop_first()[j - 1] == s[j]);
                }
            }
        }
    }
}

pub fn first_index_of(s: &str, c: char) -> (r: Option<usize>)
    ensures
        match r {
            Some(i) => i == spec_first_index(s@, c),
            None => spec_first_index(s@, c) == -1,
        },
{
    let n = s.unicode_len();
    let mut i: usize = 0;
    while i < n
        invariant
            n == s@.len(),
            i <= n,
            forall|j: int| 0 <= j < i ==> s@[j] != c,
        decreases n - i,
    {
        if s.get_char(i) == c {
            proof {
                lemma_first_index(s@, c);
                let fi = spec_first_index(s@, c);
                if fi > i {
                    assert(s@[i as int] != c);
                }
                if 0 <= fi < i {
                    assert(s@[fi] != c);
                }
                if fi == -1 {
                    assert(s@[i as int] != c);
                }
            }
            return Some(i);
        }
        i = i + 1;
    }
    proof {
        lemma_first_index(s@, c);
        let fi = spec_first_index(s@, c);
        if fi >= 0 {
            assert(s@[fi] != c);
        }
    }
    None
}

/// The portion of a path after its last '/'.
pub open spec fn spec_basename(s: Seq<char>) -> Seq<char> {
    s.subrange(spec_last_index(s, '/') + 1, s.len() as int)
}

/// The stem of a file name: everything before the last '.', except that a
/// name whose only '.' is leading (or that has none) is its own stem.
pub open spec fn spec_stem_of_name(b: Seq<char>) -> Seq<char> {
    let d = spec_last_index(b, '.');
    if d <= 0 {
        b
    } else {
        b.subrange(0, d)
    }
}

/// The stem of the file named by a path: the basename with its extension
/// removed.
pub open spec fn spec_file_stem(s: Seq<char>) -> Seq<char> {
    spec_stem_of_name(spec_basename(s))
}

pub fn file_stem_of(path: &str) -> (r: String)
    ensures
        r@ == spec_file_stem(path@),
{
    proof {
        lemma_last_index(path@, '/');
    }
    let n = path.unicode_len();
    let start: usize = match last_index_of(path, '/') {
        Some(i) => i + 1,
        None => 0,
    };
    let base = path.substring_char(start, n);
    assert(base@ =~= spec_basename(path@));
    let bn = base.unicode_len();
    proof {
        lemma_last_index(base@, '.');
    }
    match last_index_of(base, '.') {
        Some(d) if d > 0 => {
            let stem = base.substring_char(0, d);
            assert(stem@ =~= spec_file_stem(path@));
            stem.to_owned()
        },
        _ => {
            assert(base@ =~= spec_file_stem(path@));
            base.to_owned()
        },
    }
}

/// The stem of a path built as `media/ident.ext` is `ident` again, as long
/// as the identifier and the extension carry no separator characters.
pub proof fn lemma_stem_of_built_path(media: Seq<char>, ident: Seq<char>, ext: Seq<char>)
    requires
        ident.len() > 0,
        !ident.contains('/'),
        !ident.contains('.'),
        !ext.contains('/'),
        !ext.contains('.'),
    ensures
        spec_file_stem(media + "/"@ + ident + "."@ + ext) == ident,
{
    reveal_strlit("/");
    reveal_strlit(".");
    let slash = "/"@;
    let dot = "."@;
    let path = media + slash + ident + dot + ext;
    let m = media.len() as int;
    let base = ident + dot + ext;
    assert(path =~= (media + slash) + base);
    assert(path[m] == '/');
    assert forall|j: int| m < j < path.len() implies path[j] != '/' by {
        let k = j - m - 1;
        assert(base[k] == path[j]);
        if k < ident.len() {
            assert(base[k] == ident[k]);
        } else if k == ident.len() {
            assert(base[k] == '.');
        } else {
            assert(base[k] == ext[k - ident.len() - 1]);
        }
    }
    lemma_last_index(path, '/');
    let li = spec_last_index(path, '/');
    if li < m {
        assert(path[m] != '/');
    }
    if li > m {
        assert(path[li] != '/');
    }
    assert(li == m);
    assert(spec_basename(path) =~= base);
    let d = ident.len() as int;
    assert(base[d] == '.');
    assert forall|j: int| d < j < base.len() implies base[j] != '.' by {
        assert(base[j] == ext[j - d - 1]);
    }
    lemma_last_index(base, '.');
    let di = spec_last_index(base, '.');
    if di < d {
        assert(base[d] != '.');
    }
    if di > d {
        assert(base[di] != '.');
    }
    assert(di == d);
    assert(spec_stem_of_name(base) =~= ident);
}

/// The decimal digit characters.
pub open spec fn spec_digit_char(d: int) -> char {
    if d == 0 {
        '0'
    } else if d == 1 {
        '1'
    } else if d == 2 {
        '2'
    } else if d == 3 {
        '3'
    } else if d == 4 {
        '4'
    } else if d == 5 {
        '5'
    } else if d == 6 {
        '6'
    } else if d == 7 {
        '7'
    } else if d == 8 {
        '8'
    } else {
        '9'
    }
}

/// The usual decimal rendering of a natural number, without leading zeros.
pub open spec fn spec_decimal(n: nat) -> Seq<char>
    decreases n,
{
    if n < 10 {
        seq![spec_digit_char(n as int)]
    } else {
        spec_decimal(n / 10).push(spec_digit_char((n % 10) as int))
    }
}

fn digit_char(d: u32) -> (r: char)
    requires
        d < 10,
    ensures
        r == spec_digit_char(d as int),
{
    match d {
        0 => '0',
        1 => '1',
        2 => '2',
        3 => '3',
        4 => '4',
        5 => '5',
        6 => '6',
        7 => '7',
        8 => '8',
        _ => '9',
    }
}

fn push_decimal(s: &mut String, n: u32)
    ensures
        final (s)@ == old(s)@ + spec_decimal(n as nat),
    decreases n,
{
    if n < 10 {
        s.push(digit_char(n));
        assert(final(s)@ =~= old(s)@ + spec_decimal(n as nat));
    } else {
        assert(n / 10 < n && n / 10 >= 1) by (nonlinear_arith)
            requires
                n >= 10,
        ;
        push_decimal(s, n / 10);
        s.push(digit_char(n % 10));
        assert(final(s)@ =~= old(s)@ + spec_decimal(n as nat));
    }
}

/// Renders `n` in decimal.
pub fn decimal_string(n: u32) -> (r: String)
    ensures
        r@ == spec_decimal(n as nat),
{
    let mut s = String::new();
    push_decimal(&mut s, n);
    assert(s@ =~= spec_decimal(n as nat));
    s
}

} // verus!
