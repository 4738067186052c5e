//! The system dictionary: SKK-style text mapping a reading to its candidates.
//!
//! Each entry line reads `reading /cand1/cand2;note/.../`. Lines that are empty
//! or start with `;` are comments. Several lines for one reading add up in file
//! order. Entries are kept sorted by reading, so lookups are binary searches and
//! prefix listings come out in reading order.

use vstd::prelude::*;
use vstd::utf8::{decode_utf8, valid_utf8};

use crate::reading_map::ReadingMap;
use crate::text::{
    chars_of, seq_lt, slice_chars, split_on, string_from, trim, trim_chars, trim_start,
    trim_start_chars,
};

verus! {

/// The text of a candidate segment before its annotation (the first `;`).
pub open spec fn before_semicolon(s: Seq<char>) -> Seq<char>
    decreases s.len(),
{
    if s.contains(';') {
        before_semicolon(s.drop_last())
    } else {
        s
    }
}

/// The candidates that slash-separated segments give: each segment cut at its
/// annotation when `cut` is set, the empty ones dropped.
pub open spec fn kept_candidates(segs: Seq<Seq<char>>, cut: bool) -> Seq<Seq<char>>
    decreases segs.len(),
{
    if segs.len() == 0 {
        Seq::empty()
    } else {
        let prev = kept_candidates(segs.drop_last(), cut);
        let c = if cut {
            before_semicolon(segs.last())
        } else {
            segs.last()
        };
        if c.len() > 0 {
            prev.push(c)
        } else {
            prev
        }
    }
}

pub open spec fn is_blank(c: char) -> bool {
    c == ' ' || c == '\t'
}

/// The first index at or after `i` that holds a space or a tab.
pub open spec fn blank_index(t: Seq<char>, i: int) -> Option<int>
    decreases t.len() - i,
{
    if i < 0 || i >= t.len() {
        None
    } else if is_blank(t[i]) {
        Some(i)
    } else {
        blank_index(t, i + 1)
    }
}

/// What one dictionary line holds: its reading and candidates, or nothing for a
/// comment, a blank line, or a line without a reading or without candidates.
pub open spec fn line_entry(line: Seq<char>) -> Option<(Seq<char>, Seq<Seq<char>>)> {
    let t = trim(line);
    if t.len() == 0 || t[0] == ';' {
        None
    } else {
        match blank_index(t, 0) {
            None => None,
            Some(k) => {
                let reading = trim(t.subrange(0, k));
                let cands = kept_candidates(split_on(trim_start(t.subrange(k, t.len() as int)), '/'), true);
                if reading.len() == 0 || cands.len() == 0 {
                    None
                } else {
                    Some((reading, cands))
                }
            },
        }
    }
}

/// `m` with `cands` added after whatever `reading` already had.
pub open spec fn add_candidates(
    m: Map<Seq<char>, Seq<Seq<char>>>,
    reading: Seq<char>,
    cands: Seq<Seq<char>>,
) -> Map<Seq<char>, Seq<Seq<char>>> {
    if m.contains_key(reading) {
        m.insert(reading, m[reading] + cands)
    } else {
        m.insert(reading, cands)
    }
}

/// The dictionary that a sequence of lines describes.
pub open spec fn dictionary_of_lines(lines: Seq<Seq<char>>) -> Map<Seq<char>, Seq<Seq<char>>>
    decreases lines.len(),
{
    if lines.len() == 0 {
        Map::empty()
    } else {
        let prev = dictionary_of_lines(lines.drop_last());
        match line_entry(lines.last()) {
            Some((r, cs)) => add_candidates(prev, r, cs),
            None => prev,
        }
    }
}

/// The dictionary that a text describes, line by line.
pub open spec fn dictionary_of_text(text: Seq<char>) -> Map<Seq<char>, Seq<Seq<char>>> {
    dictionary_of_lines(split_on(text, '\n'))
}

/// What `encoding_rs::EUC_JP.decode` gives for some bytes.
pub uninterp spec fn euc_jp_decoded(b: Seq<u8>) -> Seq<char>;

/// Relies on `encoding_rs::EUC_JP.decode`: decoding is a function of the bytes.
#[verifier::external_body]
fn decode_euc_jp(bytes: &[u8]) -> (r: String)
    ensures
        r@ == euc_jp_decoded(bytes@),
{
    let (text, _, _) = encoding_rs::EUC_JP.decode(bytes);
    text.into_owned()
}

/// Relies on `std::str::from_utf8`: it succeeds exactly on valid UTF-8, and the
/// text is what the bytes encode.
#[verifier::external_body]
fn utf8_text(bytes: &[u8]) -> (r: Option<String>)
    ensures
        r is Some <==> valid_utf8(bytes@),
        r matches Some(s) ==> s@ == decode_utf8(bytes@),
{
    match std::str::from_utf8(bytes) {
        Ok(s) => Some(s.to_string()),
        Err(_) => None,
    }
}

/// The candidates after the reading: slash-separated, annotations cut when
/// `cut_notes` is set, empty ones dropped.
pub(crate) fn candidates_of(rest: &Vec<char>, cut_notes: bool) -> (r: Vec<String>)
    ensures
        r.deep_view() == kept_candidates(split_on(rest@, '/'), cut_notes),
{
    let mut cands: Vec<String> = Vec::new();
    let mut cur: Vec<char> = Vec::new();
    let mut cut = false;
    let mut i: usize = 0;
    assert(rest@.subrange(0, 0) =~= Seq::<char>::empty());
    assert(split_on(Seq::<char>::empty(), '/') == seq![Seq::<char>::empty()]);
    assert(!Seq::<char>::empty().contains(';'));
    while i < rest.len()
        invariant
            i <= rest@.len(),
            split_on(rest@.subrange(0, i as int), '/').len() >= 1,
            cands.deep_view() == kept_candidates(split_on(rest@.subrange(0, i as int), '/').drop_last(), cut_notes),
            cut_notes ==> cur@ == before_semicolon(split_on(rest@.subrange(0, i as int), '/').last()),
            !cut_notes ==> cur@ == split_on(rest@.subrange(0, i as int), '/').last(),
            cut_notes ==> cut == split_on(rest@.subrange(0, i as int), '/').last().contains(';'),
        decreases rest@.len() - i,
    {
        let ghost segs = split_on(rest@.subrange(0, i as int), '/');
        let ghost next = rest@.subrange(0, i + 1);
        assert(next.drop_last() =~= rest@.subrange(0, i as int));
        let c = rest[i];
        if c == '/' {
            assert(split_on(next, '/') == segs.push(Seq::empty()));
            assert(segs.push(Seq::empty()).drop_last() =~= segs);
            if cur.len() > 0 {
                let s = string_from(&cur);
                cands.push(s);
                assert(cands.deep_view() =~= kept_candidates(segs, cut_notes));
            }
            cur = Vec::new();
            cut = false;
            assert(!Seq::<char>::empty().contains(';'));
        } else {
            let ghost last = segs.last();
            assert(split_on(next, '/') == segs.update(segs.len() - 1, last.push(c)));
            assert(segs.update(segs.len() - 1, last.push(c)).drop_last() =~= segs.drop_last());
            assert(last.push(c).drop_last() =~= last);
            if cut_notes && (cut || c == ';') {
                proof {
                    if c == ';' {
                        assert(last.push(c)[last.len() as int] == ';');
                    } else {
                        let k = choose|k: int| 0 <= k < last.len() && last[k] == ';';
                        assert(last.push(c)[k] == ';');
                    }
                }
                cut = true;
            } else if !cut_notes {
                cur.push(c);
            } else {
                assert(!last.push(c).contains(';')) by {
                    if last.push(c).contains(';') {
                        let k = choose|k: int| 0 <= k < last.len() + 1 && last.push(c)[k] == ';';
                        if k < last.len() {
                            assert(last[k] == ';');
                        }
                    }
                }
                cur.push(c);
            }
        }
        i = i + 1;
    }
    assert(rest@.subrange(0, rest@.len() as int) =~= rest@);
    let ghost segs = split_on(rest@, '/');
    if cur.len() > 0 {
        let s = string_from(&cur);
        cands.push(s);
        assert(cands.deep_view() =~= kept_candidates(segs, cut_notes));
    }
    cands
}

/// Parses one line of characters.
fn parse_line_chars(line: &Vec<char>) -> (r: Option<(String, Vec<String>)>)
    ensures
        match r {
            Some((reading, cands)) => line_entry(line@) == Some((reading@, cands.deep_view())),
            None => line_entry(line@) is None,
        },
{
    let t = trim_chars(line);
    if t.len() == 0 || t[0] == ';' {
        return None;
    }
    let mut k: usize = 0;
    while k < t.len() && t[k] != ' ' && t[k] != '\t'
        invariant
            k <= t@.len(),
            blank_index(t@, 0) == blank_index(t@, k as int),
        decreases t@.len() - k,
    {
        k = k + 1;
    }
    if k == t.len() {
        return None;
    }
    let head = slice_chars(&t, 0, k);
    let reading = trim_chars(&head);
    if reading.len() == 0 {
        return None;
    }
    let tail = slice_chars(&t, k, t.len());
    let rest = trim_start_chars(&tail);
    let cands = candidates_of(&rest, true);
    if cands.len() == 0 {
        return None;
    }
    Some((string_from(&reading), cands))
}

/// Parses one dictionary line into its reading and candidates; `None` for a
/// comment, a blank line, or a line without a reading or candidates.
pub fn parse_line(line: &str) -> (r: Option<(String, Vec<String>)>)
    ensures
        match r {
            Some((reading, cands)) => line_entry(line@) == Some((reading@, cands.deep_view())),
            None => line_entry(line@) is None,
        },
{
    let cs = chars_of(line);
    parse_line_chars(&cs)
}

/// Readings mapped to candidate lists.
pub struct Dictionary {
    map: ReadingMap,
}

impl View for Dictionary {
    type V = Map<Seq<char>, Seq<Seq<char>>>;

    closed spec fn view(&self) -> Map<Seq<char>, Seq<Seq<char>>> {
        self.map@
    }
}

impl Dictionary {
    /// The internal order of the entries holds.
    pub closed spec fn wf(&self) -> bool {
        self.map.wf()
    }

    /// An empty dictionary.
    pub fn new() -> (r: Self)
        ensures
            r@ == Map::<Seq<char>, Seq<Seq<char>>>::empty(),
            r.wf(),
    {
        Dictionary { map: ReadingMap::new() }
    }

    /// The dictionary that `text` describes.
    pub fn from_text(text: &str) -> (r: Self)
        ensures
            r@ == dictionary_of_text(text@),
            r.wf(),
    {
        let cs = chars_of(text);
        let mut dict = ReadingMap::new();
        let mut line: Vec<char> = Vec::new();
        let mut i: usize = 0;
        assert(cs@.subrange(0, 0) =~= Seq::<char>::empty());
        assert(split_on(Seq::<char>::empty(), '\n') == seq![Seq::<char>::empty()]);
        assert(seq![Seq::<char>::empty()].drop_last() =~= Seq::<Seq<char>>::empty());
        while i < cs.len()
            invariant
                i <= cs@.len(),
                split_on(cs@.subrange(0, i as int), '\n').len() >= 1,
                dict.wf(),
                dict@ == dictionary_of_lines(split_on(cs@.subrange(0, i as int), '\n').drop_last()),
                line@ == split_on(cs@.subrange(0, i as int), '\n').last(),
            decreases cs@.len() - i,
        {
            let ghost lines = split_on(cs@.subrange(0, i as int), '\n');
            let ghost next = cs@.subrange(0, i + 1);
            assert(next.drop_last() =~= cs@.subrange(0, i as int));
            let c = cs[i];
            if c == '\n' {
                assert(split_on(next, '\n') == lines.push(Seq::empty()));
                assert(lines.push(Seq::empty()).drop_last() =~= lines);
                if let Some((reading, cands)) = parse_line_chars(&line) {
                    dict.add(reading, cands);
                }
                line = Vec::new();
            } else {
                assert(split_on(next, '\n') == lines.update(lines.len() - 1, lines.last().push(c)));
                assert(lines.update(lines.len() - 1, lines.last().push(c)).drop_last() =~= lines.drop_last());
                line.push(c);
            }
            i = i + 1;
        }
        assert(cs@.subrange(0, cs@.len() as int) =~= cs@);
        if let Some((reading, cands)) = parse_line_chars(&line) {
            dict.add(reading, cands);
        }
        Dictionary { map: dict }
    }

    /// The dictionary in a file's bytes: UTF-8 when they are valid UTF-8, EUC-JP otherwise.
    pub fn from_bytes(bytes: &[u8]) -> (r: Self)
        ensures
            valid_utf8(bytes@) ==> r@ == dictionary_of_text(decode_utf8(bytes@)),
            !valid_utf8(bytes@) ==> r@ == dictionary_of_text(euc_jp_decoded(bytes@)),
            r.wf(),
    {
        match utf8_text(bytes) {
            Some(text) => Self::from_text(text.as_str()),
            None => {
                let text = decode_euc_jp(bytes);
                Self::from_text(text.as_str())
            },
        }
    }

    /// The candidates of `reading`, in order, or `None` when it has no entry.
    pub fn lookup(&self, reading: &str) -> (r: Option<&[String]>)
        requires
            self.wf(),
        ensures
            r is Some <==> self@.contains_key(reading@),
            r matches Some(cs) ==> cs.deep_view() == self@[reading@],
    {
        self.map.lookup(reading)
    }

    /// Every reading that starts with `prefix`, with its candidates, in reading order.
    pub fn lookup_prefix(&self, prefix: &str) -> (r: Vec<(&str, &[String])>)
        requires
            self.wf(),
        ensures
            forall|j: int| 0 <= j < r@.len() ==> {
                let k = (#[trigger] r@[j]).0@;
                &&& prefix@.len() <= k.len() && k.subrange(0, prefix@.len() as int) == prefix@
                &&& self@.contains_key(k)
                &&& r@[j].1.deep_view() == self@[k]
            },
            forall|j: int, l: int| 0 <= j < l < r@.len() ==> seq_lt(#[trigger] r@[j].0@, #[trigger] r@[l].0@),
            forall|k: Seq<char>| #[trigger] self@.contains_key(k) && prefix@.len() <= k.len()
                && k.subrange(0, prefix@.len() as int) == prefix@
                ==> exists|j: int| 0 <= j < r@.len() && (#[trigger] r@[j]).0@ == k,
    {
        self.map.lookup_prefix(prefix)
    }
}

impl Default for Dictionary {
    fn default() -> (r: Self)
        ensures
            r@ == Map::<Seq<char>, Seq<Seq<char>>>::empty(),
            r.wf(),
    {
        Self::new()
    }
}

} // verus!
