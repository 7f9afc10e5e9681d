//! Character-level helpers shared by the parsers and formatters of the crate.
use vstd::prelude::*;

verus! {

/// The characters with the Unicode `White_Space` property.
pub open spec fn is_unicode_whitespace(c: char) -> bool {
    ||| ('\u{9}' <= c && c <= '\u{d}')
    ||| c == ' '
    ||| c == '\u{85}'
    ||| c == '\u{a0}'
    ||| c == '\u{1680}'
    ||| ('\u{2000}' <= c && c <= '\u{200a}')
    ||| c == '\u{2028}'
    ||| c == '\u{2029}'
    ||| c == '\u{202f}'
    ||| c == '\u{205f}'
    ||| c == '\u{3000}'
}

/// Whether `c` has the Unicode `White_Space` property, as `char::is_whitespace`
/// decides.
pub(crate) fn char_is_whitespace(c: char) -> (r: bool)
    ensures
        r == is_unicode_whitespace(c),
{
    ('\u{9}' <= c && c <= '\u{d}') || c == ' ' || c == '\u{85}' || c == '\u{a0}' || c == '\u{1680}'
        || ('\u{2000}' <= c && c <= '\u{200a}') || c == '\u{2028}' || c == '\u{2029}' || c == '\u{202f}'
        || c == '\u{205f}' || c == '\u{3000}'
}

/// ASCII upper-case letters mapped to lower case; every other character unchanged.
pub open spec fn ascii_lower(c: char) -> char {
    if 'A' <= c && c <= 'Z' {
        ((c as u32) + 32) as char
    } else {
        c
    }
}

/// `c` with an ASCII upper-case letter lowered, as `char::to_ascii_lowercase` does.
pub(crate) fn char_to_ascii_lowercase(c: char) -> (r: char)
    ensures
        r == ascii_lower(c),
{
    if 'A' <= c && c <= 'Z' {
        let b: u8 = (c as u8) + 32;
        b as char
    } else {
        c
    }
}

/// Whether `s`, with ASCII letters lowered, reads `lower`.
pub fn eq_ascii_lowercase(s: &str, lower: &str) -> (r: bool)
    ensures
        r == (s@.map_values(|c: char| ascii_lower(c)) == lower@),
{
    let vs = chars_of(s);
    let vl = chars_of(lower);
    if vs.len() != vl.len() {
        assert(s@.map_values(|c: char| ascii_lower(c)).len() != lower@.len());
        return false;
    }
    let mut i: usize = 0;
    while i < vs.len()
        invariant
            vs@ == s@,
            vl@ == lower@,
            vs@.len() == vl@.len(),
            i <= vs@.len(),
            forall|j: int| 0 <= j < i ==> ascii_lower(vs@[j]) == vl@[j],
        decreases vs@.len() - i,
    {
        if char_to_ascii_lowercase(vs[i]) != vl[i] {
            assert(s@.map_values(|c: char| ascii_lower(c))[i as int] != lower@[i as int]);
            return false;
        }
        i = i + 1;
    }
    assert(s@.map_values(|c: char| ascii_lower(c)) =~= lower@);
    true
}

/// Collects the characters of `s` into a vector.
pub fn chars_of(s: &str) -> (v: Vec<char>)
    ensures
        v@ == s@,
{
    let mut v: Vec<char> = Vec::new();
    for c in it: s.chars()
        invariant
            v@ == it.seq().take(it.index() as int),
            it.seq() == s@,
    {
        v.push(c);
    }
    v
}

/// Whether two strings hold the same characters.
pub fn str_eq(a: &str, b: &str) -> (r: bool)
    ensures
        r == (a@ == b@),
{
    let va = chars_of(a);
    let vb = chars_of(b);
    if va.len() != vb.len() {
        return false;
    }
    let mut i: usize = 0;
    while i < va.len()
        invariant
            va@ == a@,
            vb@ == b@,
            va@.len() == vb@.len(),
            i <= va@.len(),
            forall|j: int| 0 <= j < i ==> va@[j] == vb@[j],
        decreases va@.len() - i,
    {
        if va[i] != vb[i] {
            return false;
        }
        i = i + 1;
    }
    assert(va@ =~= vb@);
    true
}

/// The decimal digit for `d`, which is below ten.
pub open spec fn digit_char(d: nat) -> char {
    seq!['0', '1', '2', '3', '4', '5', '6', '7', '8', '9'][d as int]
}

/// The decimal representation of `n`, without leading zeros.
pub open spec fn decimal(n: nat) -> Seq<char>
    decreases n,
{
    if n < 10 {
        seq![digit_char(n)]
    } else {
        decimal(n / 10).push(digit_char(n % 10))
    }
}

/// Writes `n` in decimal without sign or leading zeros, as `u64::to_string` does.
pub(crate) fn u64_decimal(n: u64) -> (s: String)
    ensures
        s@ == decimal(n as nat),
    decreases n,
{
    let digits = "0123456789";
    proof {
        reveal_strlit("0123456789");
    }
    assert(digits@ =~= seq!['0', '1', '2', '3', '4', '5', '6', '7', '8', '9']);
    let d = (n % 10) as usize;
    let last = digits.substring_char(d, d + 1);
    assert(last@ =~= seq![digit_char((n % 10) as nat)]);
    if n < 10 {
        String::from_str(last)
    } else {
        let mut s = u64_decimal(n / 10);
        s.append(last);
        s
    }
}

/// The `Debug` rendering of an optional `u32`: `None` or `Some(<decimal>)`.
pub open spec fn debug_option_u32(o: Option<u32>) -> Seq<char> {
    match o {
        None => "None"@,
        Some(n) => "Some("@ + decimal(n as nat) + ")"@,
    }
}

/// Renders an optional `u32` as `Debug` does.
pub fn option_u32_debug(o: Option<u32>) -> (s: String)
    ensures
        s@ == debug_option_u32(o),
{
    match o {
        None => String::from_str("None"),
        Some(n) => {
            let mut s = String::from_str("Some(");
            let digits = u64_decimal(n as u64);
            s.append(digits.as_str());
            s.append(")");
            s
        },
    }
}


/// How a text is cut into pieces.
#[derive(Clone, Copy, Debug, PartialEq, Eq, Structural)]
pub enum Separator {
    /// Every character with the Unicode `White_Space` property separates.
    Whitespace,
    /// The one given character separates.
    Char(char),
    /// Either of the two given characters separates.
    Either(char, char),
}

impl Separator {
    /// Whether `c` separates pieces.
    pub open spec fn cuts(self, c: char) -> bool {
        match self {
            Separator::Whitespace => is_unicode_whitespace(c),
            Separator::Char(d) => c == d,
            Separator::Either(d, e) => c == d || c == e,
        }
    }

    /// Whether `c` separates pieces.
    pub fn is_cut(self, c: char) -> (r: bool)
        ensures
            r == self.cuts(c),
    {
        match self {
            Separator::Whitespace => char_is_whitespace(c),
            Separator::Char(d) => c == d,
            Separator::Either(d, e) => c == d || c == e,
        }
    }
}

/// The pieces of `s` between separators, as `str::split` yields them: one more
/// piece than there are separators, empty pieces included.
pub open spec fn pieces(s: Seq<char>, sep: Separator) -> Seq<Seq<char>>
    decreases s.len(),
{
    if s.len() == 0 {
        seq![Seq::empty()]
    } else {
        let prev = pieces(s.drop_last(), sep);
        if sep.cuts(s.last()) {
            prev.push(Seq::empty())
        } else {
            prev.update(prev.len() - 1, prev.last().push(s.last()))
        }
    }
}

/// There is always at least one piece.
pub proof fn lemma_pieces_len(s: Seq<char>, sep: Separator)
    ensures
        pieces(s, sep).len() >= 1,
    decreases s.len(),
{
    if s.len() > 0 {
        lemma_pieces_len(s.drop_last(), sep);
    }
}

/// The pieces that hold at least one character.
pub open spec fn nonempty_pieces(ps: Seq<Seq<char>>) -> Seq<Seq<char>> {
    ps.filter(|p: Seq<char>| p.len() > 0)
}

/// The views of a vector of strings.
pub open spec fn views_of(v: Seq<String>) -> Seq<Seq<char>> {
    v.map_values(|t: String| t@)
}

/// Cuts `s` at every separator, as `str::split` does.
pub fn split_pieces(s: &str, sep: Separator) -> (out: Vec<String>)
    ensures
        views_of(out@) == pieces(s@, sep),
{
    let v = chars_of(s);
    let mut out: Vec<String> = Vec::new();
    let mut start: usize = 0;
    let mut i: usize = 0;
    assert(s@.take(0) =~= Seq::<char>::empty());
    while i < v.len()
        invariant
            v@ == s@,
            start <= i <= v@.len(),
            views_of(out@).push(s@.subrange(start as int, i as int)) == pieces(s@.take(i as int), sep),
        decreases v@.len() - i,
    {
        let c = v[i];
        proof {
            assert(s@.take(i + 1).drop_last() =~= s@.take(i as int));
            assert(s@.take(i + 1).last() == c);
            lemma_pieces_len(s@.take(i as int), sep);
        }
        if sep.is_cut(c) {
            let piece = String::from_str(s.substring_char(start, i));
            let ghost prev = out@;
            out.push(piece);
            start = i + 1;
            proof {
                assert(views_of(out@) =~= views_of(prev).push(piece@));
                assert(s@.subrange(start as int, i + 1) =~= Seq::<char>::empty());
            }
        } else {
            proof {
                assert(s@.subrange(start as int, i + 1) =~= s@.subrange(start as int, i as int).push(c));
            }
        }
        i = i + 1;
    }
    let last = String::from_str(s.substring_char(start, i));
    let ghost prev = out@;
    out.push(last);
    proof {
        assert(views_of(out@) =~= views_of(prev).push(last@));
        assert(s@.take(v@.len() as int) =~= s@);
    }
    out
}

/// The number that decimal digits denote.
pub open spec fn digits_value(s: Seq<char>) -> int
    decreases s.len(),
{
    if s.len() == 0 {
        0
    } else {
        digits_value(s.drop_last()) * 10 + (s.last() as int - '0' as int)
    }
}

/// The digit for `d` is the character `d` places after `0`.
proof fn lemma_digit_char(d: nat)
    requires
        d < 10,
    ensures
        digit_char(d) as int == '0' as int + d,
{
    assert(seq!['0', '1', '2', '3', '4', '5', '6', '7', '8', '9'][d as int] as int == '0' as int + d);
}

/// The decimal text of `n` is made of digits, has no leading zero (but for
/// zero itself), and denotes `n`.
pub proof fn law_decimal_denotes(n: nat)
    ensures
        decimal(n).len() >= 1,
        forall|i: int| 0 <= i < decimal(n).len() ==> '0' <= #[trigger] decimal(n)[i] <= '9',
        n >= 10 ==> decimal(n)[0] != '0',
        digits_value(decimal(n)) == n,
    decreases n,
{
    lemma_digit_char(n % 10);
    if n >= 10 {
        law_decimal_denotes(n / 10);
        let prev = decimal(n / 10);
        assert(decimal(n) == prev.push(digit_char(n % 10)));
        assert(decimal(n).drop_last() =~= prev);
        assert(decimal(n).last() == digit_char(n % 10));
        assert(digits_value(decimal(n)) == digits_value(prev) * 10 + (n % 10));
        assert(n == (n / 10) * 10 + n % 10);
        assert forall|i: int| 0 <= i < decimal(n).len() implies '0' <= #[trigger] decimal(n)[i] <= '9' by {
            if i < prev.len() {
                assert(decimal(n)[i] == prev[i]);
            }
        }
        if n / 10 >= 10 {
            assert(decimal(n)[0] == prev[0]);
        } else {
            lemma_digit_char(n / 10);
            assert(decimal(n)[0] == prev[0]);
        }
    } else {
        assert(decimal(n).drop_last() =~= Seq::<char>::empty());
        assert(decimal(n).last() == digit_char(n));
        assert(n % 10 == n);
        assert(digits_value(Seq::<char>::empty()) == 0);
        assert(digits_value(decimal(n).drop_last()) == 0);
        assert(digits_value(decimal(n)) == digit_char(n) as int - '0' as int);
    }
}

/// Pieces joined back with the character `c` between them.
pub open spec fn joined_with(ps: Seq<Seq<char>>, c: char) -> Seq<char>
    decreases ps.len(),
{
    if ps.len() == 0 {
        Seq::empty()
    } else if ps.len() == 1 {
        ps[0]
    } else {
        joined_with(ps.drop_last(), c).push(c) + ps.last()
    }
}

/// Extending the last piece extends the joined text.
proof fn lemma_joined_with_extend_last(ps: Seq<Seq<char>>, c: char, t: Seq<char>)
    requires
        ps.len() >= 1,
    ensures
        joined_with(ps.update(ps.len() - 1, ps.last() + t), c) == joined_with(ps, c) + t,
{
    let qs = ps.update(ps.len() - 1, ps.last() + t);
    if ps.len() == 1 {
        assert(qs[0] == ps[0] + t);
    } else {
        assert(qs.drop_last() =~= ps.drop_last());
        assert(qs.last() == ps.last() + t);
        assert(joined_with(ps.drop_last(), c).push(c) + (ps.last() + t) =~= (joined_with(ps.drop_last(), c).push(c)
            + ps.last()) + t);
    }
}

/// Cutting a text at a character and joining the pieces back with that
/// character gives the text again: no character is lost or added.
pub proof fn law_pieces_rejoin(s: Seq<char>, c: char)
    ensures
        joined_with(pieces(s, Separator::Char(c)), c) == s,
    decreases s.len(),
{
    let sep = Separator::Char(c);
    if s.len() > 0 {
        law_pieces_rejoin(s.drop_last(), c);
        lemma_pieces_len(s.drop_last(), sep);
        let prev = pieces(s.drop_last(), sep);
        if s.last() == c {
            let ps = prev.push(Seq::empty());
            assert(ps.drop_last() =~= prev);
            assert(joined_with(prev, c).push(c) + Seq::<char>::empty() =~= s);
        } else {
            lemma_joined_with_extend_last(prev, c, seq![s.last()]);
            assert(prev.last() + seq![s.last()] =~= prev.last().push(s.last()));
            assert(s.drop_last() + seq![s.last()] =~= s);
        }
    }
}

} // verus!