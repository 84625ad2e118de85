//! Byte-level text primitives: substring search, ASCII case folding and
//! decimal rendering.

use vstd::prelude::*;

verus! {

/// The bytes of a text made of ASCII characters only.
pub open spec fn ascii_bytes(s: Seq<char>) -> Seq<u8> {
    Seq::new(s.len(), |i: int| s[i] as u8)
}

/// The texts of a list of strings, in order.
pub open spec fn names(list: Seq<String>) -> Seq<Seq<char>> {
    Seq::new(list.len(), |k: int| list[k]@)
}

/// `pat` occurs in `hay` starting at position `i`.
pub open spec fn matches_at(hay: Seq<u8>, pat: Seq<u8>, i: int) -> bool {
    0 <= i && i + pat.len() <= hay.len() && hay.subrange(i, i + pat.len()) == pat
}

/// `pat` occurs in `hay` entirely inside the window `lo..hi`.
pub open spec fn contains_within(hay: Seq<u8>, pat: Seq<u8>, lo: int, hi: int) -> bool {
    exists|i: int| lo <= i && i + pat.len() <= hi && #[trigger] matches_at(hay, pat, i)
}

/// `pat` occurs somewhere in `hay`.
pub open spec fn contains(hay: Seq<u8>, pat: Seq<u8>) -> bool {
    contains_within(hay, pat, 0, hay.len() as int)
}

/// Position `p` holds the first byte `b` of `hay` at or after `start`.
pub open spec fn is_first_byte_from(hay: Seq<u8>, b: u8, start: int, p: int) -> bool {
    &&& start <= p < hay.len()
    &&& hay[p] == b
    &&& forall|j: int| start <= j < p ==> hay[j] != b
}

/// No byte `b` stands in `hay` at or after `start`.
pub open spec fn no_byte_from(hay: Seq<u8>, b: u8, start: int) -> bool {
    forall|j: int| start <= j < hay.len() ==> hay[j] != b
}

/// The lower-case form of an ASCII letter; any other byte unchanged.
pub open spec fn fold_byte(b: u8) -> u8 {
    if 65 <= b && b <= 90 {
        (b + 32) as u8
    } else {
        b
    }
}

/// Two byte strings are equal up to the case of their ASCII letters.
pub open spec fn fold_eq(a: Seq<u8>, b: Seq<u8>) -> bool {
    a.len() == b.len() && forall|i: int| 0 <= i < a.len() ==> fold_byte(a[i]) == fold_byte(b[i])
}

/// The decimal digits of `n`, most significant first, without leading zeros.
pub open spec fn decimal_text(n: nat) -> Seq<char>
    decreases n,
{
    if n < 10 {
        seq![digit_char(n)]
    } else {
        decimal_text(n / 10).push(digit_char(n % 10))
    }
}

/// The character of one decimal digit.
pub open spec fn digit_char(d: nat) -> char {
    if d == 0 {
        '0'
    } else if d == 1 {
        '1'
    } else if d == 2 {
        '2'
    } else if d == 3 {
        '3'
    } else if d == 4 {
        '4'
    } else if d == 5 {
        '5'
    } else if d == 6 {
        '6'
    } else if d == 7 {
        '7'
    } else if d == 8 {
        '8'
    } else {
        '9'
    }
}

/// The bytes of a text that holds ASCII characters only.
pub(crate) fn literal_bytes<'a>(s: &'a str) -> (b: &'a [u8])
    requires
        vstd::utf8::is_ascii_chars(s@),
    ensures
        b@ == ascii_bytes(s@),
{
    broadcast use vstd::string::is_ascii_spec_bytes;

    let b = s.as_bytes();
    assert(vstd::string::is_ascii(s));
    assert(b@ =~= ascii_bytes(s@));
    b
}

/// Tests whether `pat` occurs in `hay` at position `i`.
pub fn is_match_at(hay: &[u8], pat: &[u8], i: usize) -> (r: bool)
    ensures
        r == matches_at(hay@, pat@, i as int),
{
    if pat.len() > hay.len() || i > hay.len() - pat.len() {
        return false;
    }
    let mut k: usize = 0;
    while k < pat.len()
        invariant
            k <= pat.len(),
            i + pat.len() <= hay.len(),
            forall|j: int| 0 <= j < k ==> hay@[i + j] == pat@[j],
        decreases pat.len() - k,
    {
        if hay[i + k] != pat[k] {
            proof {
                assert(hay@.subrange(i as int, i + pat@.len())[k as int] == hay@[i + k]);
            }
            return false;
        }
        k += 1;
    }
    proof {
        assert(hay@.subrange(i as int, i + pat@.len()) =~= pat@);
    }
    true
}

/// Tests whether `pat` occurs in `hay` inside the window `lo..hi`.
pub fn has_match_within(hay: &[u8], pat: &[u8], lo: usize, hi: usize) -> (r: bool)
    ensures
        r == contains_within(hay@, pat@, lo as int, hi as int),
{
    if pat.len() > hi || lo > hi - pat.len() {
        return false;
    }
    let last: usize = hi - pat.len();
    let mut i: usize = lo;
    while i < last
        invariant
            lo <= i <= last,
            last + pat.len() == hi,
            forall|j: int| lo <= j < i ==> !matches_at(hay@, pat@, j),
        decreases last - i,
    {
        if is_match_at(hay, pat, i) {
            return true;
        }
        i += 1;
    }
    is_match_at(hay, pat, i)
}

/// Tests whether `pat` occurs anywhere in `hay`.
pub fn has_match(hay: &[u8], pat: &[u8]) -> (r: bool)
    ensures
        r == contains(hay@, pat@),
{
    has_match_within(hay, pat, 0, hay.len())
}

/// Finds the first byte `b` of `hay` at or after `start`.
pub fn find_byte_from(hay: &[u8], b: u8, start: usize) -> (r: Option<usize>)
    ensures
        match r {
            Some(p) => is_first_byte_from(hay@, b, start as int, p as int),
            None => no_byte_from(hay@, b, start as int),
        },
{
    let mut i: usize = start;
    while i < hay.len()
        invariant
            start <= i,
            forall|j: int| start <= j < i ==> hay@[j] != b,
        decreases hay.len() - i,
    {
        if hay[i] == b {
            return Some(i);
        }
        i += 1;
    }
    None
}

/// Folds one byte to lower case when it is an ASCII capital letter.
pub fn fold(b: u8) -> (r: u8)
    ensures
        r == fold_byte(b),
{
    if 65 <= b && b <= 90 {
        b + 32
    } else {
        b
    }
}

/// Tests equality of two byte strings up to ASCII case.
pub fn eq_ignore_case(a: &[u8], b: &[u8]) -> (r: bool)
    ensures
        r == fold_eq(a@, b@),
{
    if a.len() != b.len() {
        return false;
    }
    let mut i: usize = 0;
    while i < a.len()
        invariant
            i <= a.len(),
            a.len() == b.len(),
            forall|j: int| 0 <= j < i ==> fold_byte(a@[j]) == fold_byte(b@[j]),
        decreases a.len() - i,
    {
        if fold(a[i]) != fold(b[i]) {
            return false;
        }
        i += 1;
    }
    true
}

/// The one-character text of a decimal digit.
fn digit_text(d: u64) -> (s: &'static str)
    requires
        d < 10,
    ensures
        s@ == seq![digit_char(d as nat)],
{
    proof {
        reveal_strlit("0");
        reveal_strlit("1");
        reveal_strlit("2");
        reveal_strlit("3");
        reveal_strlit("4");
        reveal_strlit("5");
        reveal_strlit("6");
        reveal_strlit("7");
        reveal_strlit("8");
        reveal_strlit("9");
    }
    let s = if d == 0 {
        "0"
    } else if d == 1 {
        "1"
    } else if d == 2 {
        "2"
    } else if d == 3 {
        "3"
    } else if d == 4 {
        "4"
    } else if d == 5 {
        "5"
    } else if d == 6 {
        "6"
    } else if d == 7 {
        "7"
    } else if d == 8 {
        "8"
    } else {
        "9"
    };
    assert(s@ =~= seq![digit_char(d as nat)]);
    s
}

/// Renders `n` in decimal.
pub fn decimal(n: u64) -> (s: String)
    ensures
        s@ == decimal_text(n as nat),
    decreases n,
{
    if n < 10 {
        String::from_str(digit_text(n))
    } else {
        let mut s = decimal(n / 10);
        s.append(digit_text(n % 10));
        assert(s@ =~= decimal_text(n as nat));
        s
    }
}

} // verus!
