//! Byte-signature patterns and the search of a binary image for them.
use vstd::prelude::*;
use crate::text::{Separator, chars_of, pieces, nonempty_pieces, views_of, split_pieces, str_eq};

verus! {

/// The value of a hexadecimal digit, if `c` is one.
pub open spec fn hex_digit_value(c: char) -> Option<nat> {
    if '0' <= c && c <= '9' {
        Some((c as nat - '0' as nat) as nat)
    } else if 'a' <= c && c <= 'f' {
        Some((c as nat - 'a' as nat + 10) as nat)
    } else if 'A' <= c && c <= 'F' {
        Some((c as nat - 'A' as nat + 10) as nat)
    } else {
        None
    }
}

/// The number that the hexadecimal digits `d` denote.
pub open spec fn hex_value(d: Seq<char>) -> nat
    decreases d.len(),
{
    if d.len() == 0 {
        0
    } else {
        hex_value(d.drop_last()) * 16 + hex_digit_value(d.last())->0
    }
}

/// The digits of a token: the token without one leading `+`.
pub open spec fn sign_stripped(t: Seq<char>) -> Seq<char> {
    if t.len() > 0 && t[0] == '+' {
        t.drop_first()
    } else {
        t
    }
}

/// What `u8::from_str_radix(t, 16)` accepts: an optional `+`, then one or more
/// hexadecimal digits whose value fits in a byte.
pub open spec fn hex_byte(t: Seq<char>) -> Option<u8> {
    let digits = sign_stripped(t);
    if digits.len() == 0 {
        None
    } else if exists|i: int| 0 <= i < digits.len() && hex_digit_value(#[trigger] digits[i]) is None {
        None
    } else if hex_value(digits) > 255 {
        None
    } else {
        Some(hex_value(digits) as u8)
    }
}

/// A token with a character that is not a hexadecimal digit is no byte.
proof fn lemma_not_hex_byte(t: Seq<char>, k: int)
    requires
        0 <= k < sign_stripped(t).len(),
        hex_digit_value(sign_stripped(t)[k]) is None,
    ensures
        hex_byte(t) is None,
{
    let digits = sign_stripped(t);
    assert(hex_digit_value(digits[k]) is None);
}

/// The value of a hexadecimal digit.
fn hex_digit(c: char) -> (v: Option<u32>)
    ensures
        v is None <==> hex_digit_value(c) is None,
        v matches Some(x) ==> hex_digit_value(c) == Some(x as nat),
{
    if '0' <= c && c <= '9' {
        Some((c as u32) - ('0' as u32))
    } else if 'a' <= c && c <= 'f' {
        Some((c as u32) - ('a' as u32) + 10)
    } else if 'A' <= c && c <= 'F' {
        Some((c as u32) - ('A' as u32) + 10)
    } else {
        None
    }
}

/// Reads a token as `u8::from_str_radix(token, 16)` does: an optional `+`
/// sign followed by hexadecimal digits (either case) is read as a number;
/// anything else, an empty digit string, or a value above 255 is an error.
fn parse_hex_byte(token: &str) -> (r: Option<u8>)
    ensures
        r == hex_byte(token@),
{
    let v = chars_of(token);
    let start: usize = if v.len() > 0 && v[0] == '+' {
        1
    } else {
        0
    };
    let ghost digits = sign_stripped(token@);
    assert(digits =~= token@.skip(start as int));
    if start == v.len() {
        return None;
    }
    let mut acc: u32 = 0;
    let mut i: usize = start;
    assert(digits.take(0) =~= Seq::<char>::empty());
    while i < v.len()
        invariant
            v@ == token@,
            start <= i <= v@.len(),
            digits == token@.skip(start as int),
            digits == sign_stripped(token@),
            forall|k: int| 0 <= k < i - start ==> hex_digit_value(#[trigger] digits[k]) is Some,
            acc == if hex_value(digits.take(i - start)) < 256 {
                hex_value(digits.take(i - start))
            } else {
                256
            },
        decreases v@.len() - i,
    {
        let j: usize = i - start;
        assert(digits[j as int] == v@[i as int]);
        match hex_digit(v[i]) {
            None => {
                proof {
                    lemma_not_hex_byte(token@, j as int);
                }
                return None;
            },
            Some(d) => {
                proof {
                    assert(digits.take(j + 1).drop_last() =~= digits.take(j as int));
                    assert(digits.take(j + 1).last() == digits[j as int]);
                }
                acc = if acc >= 256 {
                    256
                } else {
                    let x = acc * 16 + d;
                    if x > 256 {
                        256
                    } else {
                        x
                    }
                };
            },
        }
        i = i + 1;
    }
    assert(digits.take(digits.len() as int) =~= digits);
    if acc > 255 {
        None
    } else {
        Some(acc as u8)
    }
}

/// One element of a signature: `??` matches any byte, anything else is read
/// as a hexadecimal byte, and `None` where it is not one.
pub open spec fn pattern_element(t: Seq<char>) -> Option<u8> {
    if t == "??"@ {
        None
    } else {
        hex_byte(t)
    }
}

/// The elements of a signature written as whitespace-separated tokens.
pub open spec fn spec_parse_pattern(pattern: Seq<char>) -> Seq<Option<u8>> {
    nonempty_pieces(pieces(pattern, Separator::Whitespace)).map_values(|t: Seq<char>| pattern_element(t))
}

/// Reads a signature such as `48 8B 0D ?? ?? ?? ??`.
pub fn parse_pattern(pattern: &str) -> (parsed: Vec<Option<u8>>)
    ensures
        parsed@ == spec_parse_pattern(pattern@),
{
    let parts = split_pieces(pattern, Separator::Whitespace);
    let ghost all = views_of(parts@);
    let mut parsed: Vec<Option<u8>> = Vec::new();
    let mut i: usize = 0;
    assert(all.take(0) =~= Seq::<Seq<char>>::empty());
    while i < parts.len()
        invariant
            all == views_of(parts@),
            all.len() == parts@.len(),
            i <= parts@.len(),
            parsed@ == nonempty_pieces(all.take(i as int)).map_values(|t: Seq<char>| pattern_element(t)),
        decreases parts@.len() - i,
    {
        let part = &parts[i];
        proof {
            assert(all.take(i + 1) =~= all.take(i as int).push(part@));
            all.take(i as int).lemma_filter_push(part@, |p: Seq<char>| p.len() > 0);
        }
        if !part.as_str().is_empty() {
            let element = if str_eq(part.as_str(), "??") {
                None
            } else {
                parse_hex_byte(part.as_str())
            };
            let ghost prev = parsed@;
            parsed.push(element);
            proof {
                assert(nonempty_pieces(all.take(i + 1)) =~= nonempty_pieces(all.take(i as int)).push(part@));
                assert(parsed@ =~= nonempty_pieces(all.take(i + 1)).map_values(|t: Seq<char>| pattern_element(t)));
            }
        } else {
            proof {
                assert(part@.len() == 0);
                assert(nonempty_pieces(all.take(i + 1)) =~= nonempty_pieces(all.take(i as int)));
            }
        }
        i = i + 1;
    }
    proof {
        assert(all.take(parts@.len() as int) =~= all);
    }
    parsed
}


/// Whether the signature `p` matches `b` at position `i`: each concrete byte
/// equals the byte at its place, and a wildcard accepts any byte.
pub open spec fn window_matches(b: Seq<u8>, p: Seq<Option<u8>>, i: int) -> bool {
    forall|j: int|
        0 <= j < p.len() ==> match #[trigger] p[j] {
            Some(e) => b[i + j] == e,
            None => true,
        }
}

/// Whether `i` is a position where a window of `p`'s length fits in `b`.
pub open spec fn window_fits(b: Seq<u8>, p: Seq<Option<u8>>, i: int) -> bool {
    0 <= i && i + p.len() <= b.len()
}

/// The result of searching `b` for `p`: the first position where the
/// signature matches, and none for an empty signature.
pub open spec fn is_scan_result(b: Seq<u8>, p: Seq<Option<u8>>, r: Option<usize>) -> bool {
    match r {
        Some(i) => {
            &&& p.len() > 0
            &&& window_fits(b, p, i as int)
            &&& window_matches(b, p, i as int)
            &&& forall|k: int| 0 <= k < i ==> !window_matches(b, p, k)
        },
        None => p.len() == 0 || forall|k: int| #![auto] window_fits(b, p, k) ==> !window_matches(b, p, k),
    }
}

/// Finds the first position of `binary` at which `pattern` matches.
pub fn scan_pattern(binary: &[u8], pattern: &[Option<u8>]) -> (found: Option<usize>)
    ensures
        is_scan_result(binary@, pattern@, found),
{
    if pattern.len() == 0 || binary.len() < pattern.len() {
        return None;
    }
    let bl = binary.len();
    let last = bl - pattern.len();
    let mut i: usize = 0;
    while i <= last
        invariant
            bl == binary@.len(),
            pattern@.len() > 0,
            last == binary@.len() - pattern@.len(),
            last < binary@.len(),
            i <= last + 1,
            forall|k: int| 0 <= k < i ==> !window_matches(binary@, pattern@, k),
        decreases last + 1 - i,
    {
        let mut j: usize = 0;
        let mut all = true;
        while j < pattern.len()
            invariant
                i <= last,
                bl == binary@.len(),
                last == binary@.len() - pattern@.len(),
                last < binary@.len(),
                j <= pattern@.len(),
                all ==> forall|m: int| 0 <= m < j ==> match #[trigger] pattern@[m] {
                    Some(e) => binary@[i + m] == e,
                    None => true,
                },
                !all ==> !window_matches(binary@, pattern@, i as int),
            decreases pattern@.len() - j,
        {
            match pattern[j] {
                Some(expected) => {
                    assert(i + j < binary@.len());
                    if binary[i + j] != expected {
                        all = false;
                    }
                },
                None => {},
            }
            j = j + 1;
        }
        if all {
            return Some(i);
        }
        i = i + 1;
    }
    None
}

/// The offset signatures that a refresh looks for, by name, in this order.
pub open spec fn signature_table() -> Seq<(Seq<char>, Seq<char>)> {
    seq![
        ("dwGameEntitySystem"@, "48 8B 0D ?? ?? ?? ?? 48 85 C9"@),
        ("dwViewMatrix"@, "48 8D 0D ?? ?? ?? ?? 48 C1 E0 06"@),
        ("dwLocalPlayerPawn"@, "48 89 05 ?? ?? ?? ?? 48 8D 85"@),
        ("dwPlantedC4"@, "48 8B 15 ?? ?? ?? ?? 4C 8B 0D ?? ?? ?? ??"@),
    ]
}

/// The name and signature at place `k` of the table.
fn signature_at(k: usize) -> (entry: (&'static str, &'static str))
    requires
        k < 4,
    ensures
        entry.0@ == signature_table()[k as int].0,
        entry.1@ == signature_table()[k as int].1,
{
    if k == 0 {
        ("dwGameEntitySystem", "48 8B 0D ?? ?? ?? ?? 48 85 C9")
    } else if k == 1 {
        ("dwViewMatrix", "48 8D 0D ?? ?? ?? ?? 48 C1 E0 06")
    } else if k == 2 {
        ("dwLocalPlayerPawn", "48 89 05 ?? ?? ?? ?? 48 8D 85")
    } else {
        ("dwPlantedC4", "48 8B 15 ?? ?? ?? ?? 4C 8B 0D ?? ?? ?? ??")
    }
}

/// A table from offset names to offsets, each name present at most once.
#[derive(Debug)]
pub struct OffsetTable {
    entries: Vec<(String, u64)>,
}

/// The map that a list of entries denotes, a later entry overriding an earlier one.
pub open spec fn entries_map(entries: Seq<(String, u64)>) -> Map<Seq<char>, u64>
    decreases entries.len(),
{
    if entries.len() == 0 {
        Map::empty()
    } else {
        entries_map(entries.drop_last()).insert(entries.last().0@, entries.last().1)
    }
}

/// No two entries carry the same name.
pub open spec fn names_distinct(entries: Seq<(String, u64)>) -> bool {
    forall|i: int, j: int| 0 <= i < j < entries.len() ==> entries[i].0@ != entries[j].0@
}

/// An entry's name is in the map exactly when some entry carries it, and the
/// value is that of the entry carrying it, when names are distinct.
proof fn lemma_entries_map(entries: Seq<(String, u64)>)
    requires
        names_distinct(entries),
    ensures
        forall|k: Seq<char>| #[trigger] entries_map(entries).contains_key(k) <==> exists|i: int| 0 <= i < entries.len() && entries[i].0@ == k,
        forall|i: int| 0 <= i < entries.len() ==> #[trigger] entries_map(entries)[entries[i].0@] == entries[i].1,
        entries_map(entries).dom().finite(),
        entries_map(entries).dom().len() == entries.len(),
    decreases entries.len(),
{
    if entries.len() > 0 {
        let prev = entries.drop_last();
        assert(names_distinct(prev));
        lemma_entries_map(prev);
        let last = entries.last();
        assert forall|k: Seq<char>| #[trigger] entries_map(entries).contains_key(k) <==> exists|i: int| 0 <= i < entries.len() && entries[i].0@ == k by {
            if entries_map(entries).contains_key(k) && k != last.0@ {
                assert(entries_map(prev).contains_key(k));
                let i = choose|i: int| 0 <= i < prev.len() && prev[i].0@ == k;
                assert(entries[i].0@ == k);
            }
            if exists|i: int| 0 <= i < entries.len() && entries[i].0@ == k {
                let i = choose|i: int| 0 <= i < entries.len() && entries[i].0@ == k;
                if i < entries.len() - 1 {
                    assert(prev[i].0@ == k);
                }
            }
        }
        assert(!entries_map(prev).contains_key(last.0@)) by {
            if entries_map(prev).contains_key(last.0@) {
                let i = choose|i: int| 0 <= i < prev.len() && prev[i].0@ == last.0@;
                assert(entries[i].0@ == entries[entries.len() - 1].0@);
            }
        }
        assert forall|i: int| 0 <= i < entries.len() implies #[trigger] entries_map(entries)[entries[i].0@] == entries[i].1 by {
            if i < entries.len() - 1 {
                assert(prev[i] == entries[i]);
            }
        }
    }
}

impl View for OffsetTable {
    type V = Map<Seq<char>, u64>;

    closed spec fn view(&self) -> Map<Seq<char>, u64> {
        entries_map(self.entries@)
    }
}

impl OffsetTable {
    /// Well-formedness: each name is present at most once.
    pub closed spec fn wf(&self) -> bool {
        names_distinct(self.entries@)
    }

    /// An empty table.
    pub fn new() -> (table: OffsetTable)
        ensures
            table.wf(),
            table@ == Map::<Seq<char>, u64>::empty(),
    {
        OffsetTable { entries: Vec::new() }
    }

    /// Sets the offset of `name`, replacing any earlier one.
    pub fn insert(&mut self, name: String, offset: u64)
        requires
            old(self).wf(),
        ensures
            final(self).wf(),
            final(self)@ == old(self)@.insert(name@, offset),
    {
        let ghost before = self.entries@;
        proof {
            lemma_entries_map(before);
        }
        let mut i: usize = 0;
        while i < self.entries.len()
            invariant
                self.entries@ == before,
                before == old(self).entries@,
                names_distinct(before),
                i <= before.len(),
                forall|j: int| 0 <= j < i ==> before[j].0@ != name@,
            decreases before.len() - i,
        {
            if str_eq(self.entries[i].0.as_str(), name.as_str()) {
                let key = self.entries[i].0.clone();
                self.entries.set(i, (key, offset));
                proof {
                    lemma_entries_map(before);
                    let after = self.entries@;
                    assert(after == before.update(i as int, (key, offset)));
                    assert(key@ == name@);
                    assert(names_distinct(after)) by {
                        assert forall|a: int, b: int| 0 <= a < b < after.len() implies after[a].0@ != after[b].0@ by {
                            assert(before[a].0@ != before[b].0@);
                        }
                    }
                    lemma_entries_map(after);
                    assert(entries_map(after) =~= entries_map(before).insert(name@, offset)) by {
                        assert forall|k: Seq<char>| entries_map(after).contains_key(k) <==> entries_map(before).insert(name@, offset).contains_key(k) by {
                            if entries_map(before).contains_key(k) {
                                let j = choose|j: int| 0 <= j < before.len() && before[j].0@ == k;
                                assert(after[j].0@ == k);
                            }
                            if entries_map(after).contains_key(k) {
                                let j = choose|j: int| 0 <= j < after.len() && after[j].0@ == k;
                                assert(before[j].0@ == k);
                            }
                        }
                        assert forall|k: Seq<char>| #[trigger] entries_map(after).contains_key(k) implies entries_map(after)[k] == entries_map(before).insert(name@, offset)[k] by {
                            let j = choose|j: int| 0 <= j < after.len() && after[j].0@ == k;
                            assert(entries_map(after)[after[j].0@] == after[j].1);
                            if j != i {
                                assert(entries_map(before)[before[j].0@] == before[j].1);
                            }
                        }
                    }
                }
                return;
            }
            i = i + 1;
        }
        self.entries.push((name, offset));
        proof {
            let after = self.entries@;
            assert(after.drop_last() =~= before);
            assert(names_distinct(after)) by {
                assert forall|a: int, b: int| 0 <= a < b < after.len() implies after[a].0@ != after[b].0@ by {
                    if b < after.len() - 1 {
                        assert(before[a].0@ != before[b].0@);
                    } else {
                        assert(before[a].0@ != name@);
                    }
                }
            }
        }
    }

    /// The offset recorded for `name`, if any.
    pub fn get(&self, name: &str) -> (found: Option<&u64>)
        requires
            self.wf(),
        ensures
            match found {
                Some(v) => self@.contains_key(name@) && *v == self@[name@],
                None => !self@.contains_key(name@),
            },
    {
        proof {
            lemma_entries_map(self.entries@);
        }
        let mut i: usize = 0;
        while i < self.entries.len()
            invariant
                names_distinct(self.entries@),
                i <= self.entries@.len(),
                forall|j: int| 0 <= j < i ==> self.entries@[j].0@ != name@,
            decreases self.entries@.len() - i,
        {
            if str_eq(self.entries[i].0.as_str(), name) {
                proof {
                    lemma_entries_map(self.entries@);
                }
                return Some(&self.entries[i].1);
            }
            i = i + 1;
        }
        proof {
            lemma_entries_map(self.entries@);
        }
        None
    }

    /// The number of names in the table.
    pub fn len(&self) -> (n: usize)
        requires
            self.wf(),
        ensures
            n == self@.len(),
    {
        proof {
            lemma_entries_map(self.entries@);
        }
        self.entries.len()
    }

    /// The entries, each name once, in the order in which they were first set.
    pub fn entries(&self) -> (out: &Vec<(String, u64)>)
        requires
            self.wf(),
        ensures
            names_distinct(out@),
            entries_map(out@) == self@,
    {
        &self.entries
    }
}

/// The offsets that a refresh records: with a binary image, the position of
/// the first match of each signature that occurs in it; without one, every
/// signature name with offset zero.
pub open spec fn found_offsets(binary: Option<Seq<u8>>, sigs: Seq<(Seq<char>, Seq<char>)>) -> Map<Seq<char>, u64>
    decreases sigs.len(),
{
    if sigs.len() == 0 {
        Map::empty()
    } else {
        let prev = found_offsets(binary, sigs.drop_last());
        let (name, signature) = sigs.last();
        match binary {
            None => prev.insert(name, 0),
            Some(data) => match first_match(data, spec_parse_pattern(signature)) {
                Some(i) => prev.insert(name, i as u64),
                None => prev,
            },
        }
    }
}

/// The first position at which `p` matches `b`, if there is one.
pub open spec fn first_match(b: Seq<u8>, p: Seq<Option<u8>>) -> Option<usize> {
    if exists|i: usize| is_scan_result(b, p, Some(i)) {
        Some(choose|i: usize| is_scan_result(b, p, Some(i)))
    } else {
        None
    }
}

/// A search result is the first match.
proof fn lemma_first_match(b: Seq<u8>, p: Seq<Option<u8>>, r: Option<usize>)
    requires
        is_scan_result(b, p, r),
    ensures
        first_match(b, p) == r,
{
    if exists|i: usize| is_scan_result(b, p, Some(i)) {
        let c = choose|i: usize| is_scan_result(b, p, Some(i));
        lemma_scan_result_unique(b, p, r, Some(c));
    }
}

/// The first match is unique.
proof fn lemma_scan_result_unique(b: Seq<u8>, p: Seq<Option<u8>>, r1: Option<usize>, r2: Option<usize>)
    requires
        is_scan_result(b, p, r1),
        is_scan_result(b, p, r2),
    ensures
        r1 == r2,
{
    match (r1, r2) {
        (Some(i), Some(j)) => {
            if i < j {
                assert(!window_matches(b, p, i as int));
            } else if j < i {
                assert(!window_matches(b, p, j as int));
            }
        },
        (Some(i), None) => {
            assert(window_fits(b, p, i as int));
        },
        (None, Some(j)) => {
            assert(window_fits(b, p, j as int));
        },
        _ => {},
    }
}

/// Looks for each known signature in `binary`, or lists every name with offset
/// zero when there is no binary.
pub fn extract_offsets(binary: Option<&[u8]>) -> (offsets: OffsetTable)
    ensures
        offsets.wf(),
        offsets@ == found_offsets(
            match binary {
                Some(d) => Some(d@),
                None => None,
            },
            signature_table(),
        ),
{
    let ghost data = match binary {
        Some(d) => Some(d@),
        None => None,
    };
    let mut offsets = OffsetTable::new();
    let mut k: usize = 0;
    assert(signature_table().take(0) =~= Seq::<(Seq<char>, Seq<char>)>::empty());
    while k < 4
        invariant
            k <= 4,
            offsets.wf(),
            data == match binary {
                Some(d) => Some(d@),
                None => None::<Seq<u8>>,
            },
            offsets@ == found_offsets(data, signature_table().take(k as int)),
        decreases 4 - k,
    {
        let (name, signature) = signature_at(k);
        proof {
            assert(signature_table().take(k + 1).drop_last() =~= signature_table().take(k as int));
            assert(signature_table().take(k + 1).last() == signature_table()[k as int]);
        }
        match binary {
            Some(bytes) => {
                let pattern = parse_pattern(signature);
                let found = scan_pattern(bytes, pattern.as_slice());
                match found {
                    Some(index) => {
                        offsets.insert(String::from_str(name), index as u64);
                    },
                    None => {},
                }
                proof {
                    lemma_first_match(bytes@, spec_parse_pattern(signature@), found);
                }
            },
            None => {
                offsets.insert(String::from_str(name), 0);
            },
        }
        k = k + 1;
    }
    proof {
        assert(signature_table().take(4) =~= signature_table());
    }
    offsets
}


/// Without a binary image every signature name is recorded with offset
/// zero: four distinct names.
pub proof fn law_offsets_without_binary()
    ensures
        forall|k: int| 0 <= k < 4 ==> #[trigger] found_offsets(None, signature_table()).contains_key(signature_table()[k].0)
            && found_offsets(None, signature_table())[signature_table()[k].0] == 0,
        found_offsets(None, signature_table()).dom().finite(),
        found_offsets(None, signature_table()).len() == 4,
{
    reveal_strlit("dwGameEntitySystem");
    reveal_strlit("dwViewMatrix");
    reveal_strlit("dwLocalPlayerPawn");
    reveal_strlit("dwPlantedC4");
    let t = signature_table();
    assert(t.take(4).drop_last() =~= t.take(3));
    assert(t.take(3).drop_last() =~= t.take(2));
    assert(t.take(2).drop_last() =~= t.take(1));
    assert(t.take(1).drop_last() =~= t.take(0));
    assert(t.take(4) =~= t);
    let m0 = Map::<Seq<char>, u64>::empty();
    let m1 = m0.insert(t[0].0, 0);
    let m2 = m1.insert(t[1].0, 0);
    let m3 = m2.insert(t[2].0, 0);
    let m4 = m3.insert(t[3].0, 0);
    assert(found_offsets(None, t.take(0)) =~= m0);
    assert(t.take(1).last() == t[0]);
    assert(found_offsets(None, t.take(1)) =~= m1);
    assert(t.take(2).last() == t[1]);
    assert(found_offsets(None, t.take(2)) =~= m2);
    assert(t.take(3).last() == t[2]);
    assert(found_offsets(None, t.take(3)) =~= m3);
    assert(t.take(4).last() == t[3]);
    assert(found_offsets(None, t) =~= m4);
    assert(t[0].0.len() == 18 && t[1].0.len() == 12 && t[2].0.len() == 17 && t[3].0.len() == 11);
    assert(m0.dom().len() == 0);
    assert(!m0.dom().contains(t[0].0));
    assert(!m1.dom().contains(t[1].0));
    assert(!m2.dom().contains(t[2].0));
    assert(!m3.dom().contains(t[3].0));
}

/// A refresh looks for exactly these four signatures, by these names, in
/// this order.
pub proof fn law_signature_table()
    ensures
        signature_table().len() == 4,
        signature_table()[0] == ("dwGameEntitySystem"@, "48 8B 0D ?? ?? ?? ?? 48 85 C9"@),
        signature_table()[1] == ("dwViewMatrix"@, "48 8D 0D ?? ?? ?? ?? 48 C1 E0 06"@),
        signature_table()[2] == ("dwLocalPlayerPawn"@, "48 89 05 ?? ?? ?? ?? 48 8D 85"@),
        signature_table()[3] == ("dwPlantedC4"@, "48 8B 15 ?? ?? ?? ?? 4C 8B 0D ?? ?? ?? ??"@),
{
}

/// The search finds the first place where the signature matches: when it
/// matches at position `j` (each concrete byte equal to the binary's byte
/// there, wildcards anything), a position at or before `j` is found, and at
/// the position found the signature matches too.
pub proof fn law_scan_finds_first_match(b: Seq<u8>, p: Seq<Option<u8>>, r: Option<usize>, j: int)
    requires
        is_scan_result(b, p, r),
        p.len() > 0,
        0 <= j,
        j + p.len() <= b.len(),
        forall|m: int| 0 <= m < p.len() ==> (#[trigger] p[m] is None || b[j + m] == p[m]->0),
    ensures
        r is Some,
        r->0 <= j,
        r->0 + p.len() <= b.len(),
        forall|m: int| 0 <= m < p.len() ==> (#[trigger] p[m] is None || b[r->0 + m] == p[m]->0),
{
    assert(window_matches(b, p, j));
    if r is None {
        assert(window_fits(b, p, j));
    } else {
        let i = r->0;
        if i > j {
            assert(!window_matches(b, p, j));
        }
        assert forall|m: int| 0 <= m < p.len() implies (#[trigger] p[m] is None || b[i + m] == p[m]->0) by {
            assert(window_matches(b, p, i as int));
        }
    }
}

/// When nothing is found, the signature matches nowhere in the binary.
pub proof fn law_scan_misses_only_absent_signatures(b: Seq<u8>, p: Seq<Option<u8>>, j: int)
    requires
        is_scan_result(b, p, None),
        p.len() > 0,
        0 <= j,
        j + p.len() <= b.len(),
    ensures
        exists|m: int| 0 <= m < p.len() && #[trigger] p[m] is Some && b[j + m] != p[m]->0,
{
    assert(window_fits(b, p, j));
    assert(!window_matches(b, p, j));
}

/// A hexadecimal digit is worth its place after `0`, `a` or `A` (the
/// letters counting from ten); no other character is a digit.
pub proof fn law_hex_digit_values(c: char)
    ensures
        '0' <= c <= '9' ==> hex_digit_value(c) == Some((c as int - '0' as int) as nat),
        'a' <= c <= 'f' ==> hex_digit_value(c) == Some((c as int - 'a' as int + 10) as nat),
        'A' <= c <= 'F' ==> hex_digit_value(c) == Some((c as int - 'A' as int + 10) as nat),
        !('0' <= c <= '9' || 'a' <= c <= 'f' || 'A' <= c <= 'F') ==> hex_digit_value(c) is None,
        hex_digit_value(c) matches Some(v) ==> v < 16,
{
}

/// Two hexadecimal digits denote sixteen times the first plus the second,
/// always a byte; an optional `+` before them changes nothing.
pub proof fn law_two_hex_digits(c: char, d: char)
    requires
        hex_digit_value(c) is Some,
        hex_digit_value(d) is Some,
    ensures
        hex_byte(seq![c, d]) == Some((hex_digit_value(c)->0 * 16 + hex_digit_value(d)->0) as u8),
        hex_byte(seq!['+', c, d]) == hex_byte(seq![c, d]),
        hex_digit_value(c)->0 * 16 + hex_digit_value(d)->0 <= 255,
{
    let t = seq![c, d];
    assert(t.drop_last() =~= seq![c]);
    assert(seq![c].drop_last() =~= Seq::<char>::empty());
    assert(seq![c].last() == c);
    assert(t.last() == d);
    assert(hex_value(Seq::<char>::empty()) == 0);
    assert(hex_value(seq![c]) == hex_digit_value(c)->0);
    assert(hex_value(t) == hex_digit_value(c)->0 * 16 + hex_digit_value(d)->0);
    assert(sign_stripped(t) == t);
    assert(seq!['+', c, d].drop_first() =~= t);
    assert forall|i: int| 0 <= i < t.len() implies hex_digit_value(#[trigger] t[i]) is Some by {
        if i == 0 {
            assert(t[i] == c);
        } else {
            assert(t[i] == d);
        }
    }
}

} // verus!