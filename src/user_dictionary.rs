//! The user dictionary: readings mapped to the candidates the user committed,
//! most recent first.

use vstd::prelude::*;

use crate::dictionary::{blank_index, candidates_of, kept_candidates};
use crate::reading_map::{sorted_listing_of, ReadingMap};
use crate::text::{
    chars_of, is_white_space, lemma_split_after_separator, lemma_split_without_separator, push_char,
    push_str, slice_chars, split_on, trim, trim_chars, trim_end, trim_start, trim_start_chars,
};

verus! {

/// `list` without any occurrence of `c`, order kept.
pub open spec fn without(list: Seq<Seq<char>>, c: Seq<char>) -> Seq<Seq<char>>
    decreases list.len(),
{
    if list.len() == 0 {
        list
    } else {
        let rest = without(list.drop_last(), c);
        if list.last() == c {
            rest
        } else {
            rest.push(list.last())
        }
    }
}

/// `list` with `c` moved (or added) to the front, and present once.
pub open spec fn promoted(list: Seq<Seq<char>>, c: Seq<char>) -> Seq<Seq<char>> {
    seq![c] + without(list, c)
}

/// The candidate list of `reading` in `m`, empty when there is none.
pub open spec fn list_of(m: Map<Seq<char>, Seq<Seq<char>>>, reading: Seq<char>) -> Seq<Seq<char>> {
    if m.contains_key(reading) {
        m[reading]
    } else {
        Seq::empty()
    }
}

/// `m` after `candidate` was committed for `reading`.
pub open spec fn recorded(
    m: Map<Seq<char>, Seq<Seq<char>>>,
    reading: Seq<char>,
    candidate: Seq<char>,
) -> Map<Seq<char>, Seq<Seq<char>>> {
    m.insert(reading, promoted(list_of(m, reading), candidate))
}

/// The comment line that starts a saved user dictionary.
pub const USER_DICT_HEADER: &'static str = ";; japinput ユーザー辞書";

/// What one line of a saved user dictionary holds: the text before the first
/// space or tab is the reading, the non-empty slash-separated pieces after it
/// the candidates. Blank lines, comments and lines without candidates hold nothing.
pub open spec fn user_line_entry(line: Seq<char>) -> Option<(Seq<char>, Seq<Seq<char>>)> {
    let t = trim(line);
    if t.len() == 0 || t[0] == ';' {
        None
    } else {
        match blank_index(t, 0) {
            None => None,
            Some(k) => {
                let cands = kept_candidates(split_on(trim_start(t.subrange(k, t.len() as int)), '/'), false);
                if cands.len() == 0 {
                    None
                } else {
                    Some((t.subrange(0, k), cands))
                }
            },
        }
    }
}

/// The entries that saved lines describe; a later line for a reading replaces an earlier one.
pub open spec fn user_entries_of_lines(lines: Seq<Seq<char>>) -> Map<Seq<char>, Seq<Seq<char>>>
    decreases lines.len(),
{
    if lines.len() == 0 {
        Map::empty()
    } else {
        let prev = user_entries_of_lines(lines.drop_last());
        match user_line_entry(lines.last()) {
            Some((r, cs)) => prev.insert(r, cs),
            None => prev,
        }
    }
}

/// Candidates separated by `/`.
pub open spec fn joined(cs: Seq<Seq<char>>) -> Seq<char>
    decreases cs.len(),
{
    if cs.len() == 0 {
        Seq::empty()
    } else if cs.len() == 1 {
        cs[0]
    } else {
        joined(cs.drop_last()) + seq!['/'] + cs.last()
    }
}

/// The saved line of one reading: `reading /cand1/cand2/`.
pub open spec fn entry_line(reading: Seq<char>, cs: Seq<Seq<char>>) -> Seq<char> {
    reading + seq![' ', '/'] + joined(cs) + seq!['/']
}

/// The saved lines of `es`, each ended by a newline.
pub open spec fn listing_text(es: Seq<(Seq<char>, Seq<Seq<char>>)>) -> Seq<char>
    decreases es.len(),
{
    if es.len() == 0 {
        Seq::empty()
    } else {
        listing_text(es.drop_last()) + entry_line(es.last().0, es.last().1) + seq!['\n']
    }
}

/// Abstract state of a user dictionary.
pub struct UserDictView {
    /// Readings and their candidates, most recently committed first.
    pub entries: Map<Seq<char>, Seq<Seq<char>>>,
    /// Whether there are changes not saved yet.
    pub dirty: bool,
}

/// A learning dictionary: committing a candidate moves it to the front of its reading.
pub struct UserDictionary {
    map: ReadingMap,
    dirty: bool,
}

impl View for UserDictionary {
    type V = UserDictView;

    closed spec fn view(&self) -> UserDictView {
        UserDictView { entries: self.map@, dirty: self.dirty }
    }
}

impl UserDictionary {
    /// The internal order of the entries holds.
    pub closed spec fn wf(&self) -> bool {
        self.map.wf()
    }

    /// An empty dictionary with nothing to save.
    pub fn new() -> (r: Self)
        ensures
            r@.entries == Map::<Seq<char>, Seq<Seq<char>>>::empty(),
            !r@.dirty,
            r.wf(),
    {
        UserDictionary { map: ReadingMap::new(), dirty: false }
    }

    /// Learns that `candidate` was committed for `reading`: it moves to the front
    /// of that reading's list, with no other copy of it left there.
    pub fn record(&mut self, reading: &str, candidate: &str)
        requires
            old(self).wf(),
        ensures
            final(self).wf(),
            final(self)@.entries == recorded(old(self)@.entries, reading@, candidate@),
            final(self)@.dirty,
    {
        let c = candidate.to_string();
        let mut list: Vec<String> = Vec::new();
        list.push(c.clone());
        let ghost old_list = list_of(self.map@, reading@);
        match self.map.lookup(reading) {
            Some(cs) => {
                let mut i: usize = 0;
                while i < cs.len()
                    invariant
                        i <= cs@.len(),
                        cs.deep_view() == old_list,
                        c@ == candidate@,
                        list.deep_view() == seq![c@] + without(old_list.subrange(0, i as int), c@),
                    decreases cs@.len() - i,
                {
                    let ghost before = list.deep_view();
                    assert(old_list.subrange(0, i + 1).drop_last() =~= old_list.subrange(0, i as int));
                    assert(cs.deep_view()[i as int] == cs@[i as int]@);
                    if cs[i] != c {
                        list.push(cs[i].clone());
                        assert(list.deep_view() =~= before.push(cs@[i as int]@));
                    }
                    i = i + 1;
                }
                assert(old_list.subrange(0, cs@.len() as int) =~= old_list);
            },
            None => {
                assert(list.deep_view() =~= seq![c@]);
                assert(seq![c@] + without(Seq::<Seq<char>>::empty(), c@) =~= seq![c@]);
            },
        }
        self.map.put(reading.to_string(), list);
        self.dirty = true;
    }

    /// The candidates of `reading`, most recent first; `None` when it has none.
    pub fn lookup(&self, reading: &str) -> (r: Option<&[String]>)
        requires
            self.wf(),
        ensures
            r is Some <==> self@.entries.contains_key(reading@) && self@.entries[reading@].len() > 0,
            r matches Some(cs) ==> cs.deep_view() == self@.entries[reading@],
    {
        match self.map.lookup(reading) {
            Some(cs) => {
                if cs.len() == 0 {
                    None
                } else {
                    Some(cs)
                }
            },
            None => None,
        }
    }

    /// The dictionary that saved text describes, with nothing to save.
    pub fn from_text(text: &str) -> (r: Self)
        ensures
            r@.entries == user_entries_of_lines(split_on(text@, '\n')),
            !r@.dirty,
            r.wf(),
    {
        let cs = chars_of(text);
        let mut map = ReadingMap::new();
        let mut line: Vec<char> = Vec::new();
        let mut i: usize = 0;
        assert(cs@.subrange(0, 0) =~= Seq::<char>::empty());
        assert(split_on(Seq::<char>::empty(), '\n') == seq![Seq::<char>::empty()]);
        assert(seq![Seq::<char>::empty()].drop_last() =~= Seq::<Seq<char>>::empty());
        while i < cs.len()
            invariant
                i <= cs@.len(),
                map.wf(),
                split_on(cs@.subrange(0, i as int), '\n').len() >= 1,
                map@ == user_entries_of_lines(split_on(cs@.subrange(0, i as int), '\n').drop_last()),
                line@ == split_on(cs@.subrange(0, i as int), '\n').last(),
            decreases cs@.len() - i,
        {
            let ghost lines = split_on(cs@.subrange(0, i as int), '\n');
            let ghost next = cs@.subrange(0, i + 1);
            assert(next.drop_last() =~= cs@.subrange(0, i as int));
            let c = cs[i];
            if c == '\n' {
                assert(split_on(next, '\n') == lines.push(Seq::empty()));
                assert(lines.push(Seq::empty()).drop_last() =~= lines);
                if let Some((reading, cands)) = user_line(&line) {
                    map.put(reading, cands);
                }
                line = Vec::new();
            } else {
                assert(split_on(next, '\n') == lines.update(lines.len() - 1, lines.last().push(c)));
                assert(lines.update(lines.len() - 1, lines.last().push(c)).drop_last() =~= lines.drop_last());
                line.push(c);
            }
            i = i + 1;
        }
        assert(cs@.subrange(0, cs@.len() as int) =~= cs@);
        if let Some((reading, cands)) = user_line(&line) {
            map.put(reading, cands);
        }
        UserDictionary { map, dirty: false }
    }

    /// The saved form: the header line, then one line per reading in reading order.
    pub fn to_text(&self) -> (r: String)
        requires
            self.wf(),
        ensures
            exists|es: Seq<(Seq<char>, Seq<Seq<char>>)>|
                sorted_listing_of(es, self@.entries) && r@ == USER_DICT_HEADER@ + seq!['\n'] + listing_text(es),
    {
        let ghost es = self.map.listing();
        proof {
            self.map.lemma_listing();
        }
        let mut out = USER_DICT_HEADER.to_string();
        push_char(&mut out, '\n');
        let ghost head = out@;
        let mut i: usize = 0;
        assert(es.subrange(0, 0) =~= Seq::<(Seq<char>, Seq<Seq<char>>)>::empty());
        assert(head + listing_text(Seq::<(Seq<char>, Seq<Seq<char>>)>::empty()) =~= head);
        while i < self.map.len()
            invariant
                es == self.map.listing(),
                i <= es.len(),
                out@ == head + listing_text(es.subrange(0, i as int)),
            decreases es.len() - i,
        {
            let (reading, cands) = self.map.entry_at(i);
            let ghost before = out@;
            push_str(&mut out, reading);
            push_char(&mut out, ' ');
            push_char(&mut out, '/');
            let mut j: usize = 0;
            let ghost mid = out@;
            while j < cands.len()
                invariant
                    j <= cands@.len(),
                    out@ == mid + joined(cands.deep_view().subrange(0, j as int)),
                decreases cands@.len() - j,
            {
                let ghost sub = cands.deep_view().subrange(0, j + 1);
                assert(sub.drop_last() =~= cands.deep_view().subrange(0, j as int));
                assert(sub.last() == cands@[j as int]@);
                if j > 0 {
                    push_char(&mut out, '/');
                    push_str(&mut out, cands[j].as_str());
                    assert(out@ =~= mid + joined(sub));
                } else {
                    push_str(&mut out, cands[j].as_str());
                    assert(sub =~= seq![cands@[0]@]);
                    assert(joined(cands.deep_view().subrange(0, 0)) =~= Seq::<char>::empty());
                    assert(out@ =~= mid + joined(sub));
                }
                j = j + 1;
            }
            assert(cands.deep_view().subrange(0, cands@.len() as int) =~= cands.deep_view());
            push_char(&mut out, '/');
            push_char(&mut out, '\n');
            proof {
                let sub = es.subrange(0, i + 1);
                assert(sub.drop_last() =~= es.subrange(0, i as int));
                assert(out@ =~= before + entry_line(es[i as int].0, es[i as int].1) + seq!['\n']);
                assert(out@ =~= head + listing_text(sub));
            }
            i = i + 1;
        }
        assert(es.subrange(0, es.len() as int) =~= es);
        assert(head == USER_DICT_HEADER@ + seq!['\n']);
        assert(self@.entries == self.map@);
        assert(sorted_listing_of(es, self@.entries) && out@ == USER_DICT_HEADER@ + seq!['\n'] + listing_text(es));
        out
    }

    /// Records that the current entries have been saved.
    pub fn mark_saved(&mut self)
        ensures
            final(self)@.entries == old(self)@.entries,
            !final(self)@.dirty,
            final(self).wf() == old(self).wf(),
    {
        self.dirty = false;
    }

    /// Whether there are changes not saved yet.
    pub fn is_dirty(&self) -> (r: bool)
        ensures
            r == self@.dirty,
    {
        self.dirty
    }
}

impl Default for UserDictionary {
    fn default() -> (r: Self)
        ensures
            r@.entries == Map::<Seq<char>, Seq<Seq<char>>>::empty(),
            !r@.dirty,
            r.wf(),
    {
        Self::new()
    }
}

/// Parses one saved line.
fn user_line(line: &Vec<char>) -> (r: Option<(String, Vec<String>)>)
    ensures
        match r {
            Some((reading, cands)) => user_line_entry(line@) == Some((reading@, cands.deep_view())),
            None => user_line_entry(line@) is None,
        },
{
    let t = trim_chars(line);
    if t.len() == 0 || t[0] == ';' {
        return None;
    }
    let mut k: usize = 0;
    while k < t.len() && t[k] != ' ' && t[k] != '\t'
        invariant
            k <= t@.len(),
            blank_index(t@, 0) == blank_index(t@, k as int),
        decreases t@.len() - k,
    {
        k = k + 1;
    }
    if k == t.len() {
        return None;
    }
    let head = slice_chars(&t, 0, k);
    let tail = slice_chars(&t, k, t.len());
    let rest = trim_start_chars(&tail);
    let cands = candidates_of(&rest, false);
    if cands.len() == 0 {
        return None;
    }
    Some((crate::text::string_from(&head), cands))
}

/// A reading and candidates that the saved format holds unchanged: the reading
/// is non-empty, has no white space and does not start with `;`; there is at
/// least one candidate, and each is non-empty with no `/` and no line break.
pub open spec fn savable(reading: Seq<char>, cs: Seq<Seq<char>>) -> bool {
    &&& reading.len() > 0
    &&& reading[0] != ';'
    &&& forall|i: int| 0 <= i < reading.len() ==> !is_white_space(#[trigger] reading[i])
    &&& cs.len() > 0
    &&& forall|j: int|
        0 <= j < cs.len() ==> (#[trigger] cs[j]).len() > 0 && !cs[j].contains('/') && !cs[j].contains('\n')
}

/// The saved lines of `es`, one per entry.
pub open spec fn entry_lines(es: Seq<(Seq<char>, Seq<Seq<char>>)>) -> Seq<Seq<char>> {
    es.map_values(|e: (Seq<char>, Seq<Seq<char>>)| entry_line(e.0, e.1))
}

proof fn lemma_joined_split(cs: Seq<Seq<char>>)
    requires
        cs.len() > 0,
        forall|j: int| 0 <= j < cs.len() ==> !(#[trigger] cs[j]).contains('/') && !cs[j].contains('\n'),
    ensures
        split_on(joined(cs), '/') == cs,
        !joined(cs).contains('\n'),
    decreases cs.len(),
{
    if cs.len() == 1 {
        lemma_split_without_separator(cs[0], '/');
        assert(seq![cs[0]] =~= cs);
    } else {
        let init = cs.drop_last();
        assert forall|j: int| 0 <= j < init.len() implies !(#[trigger] init[j]).contains('/') && !init[j].contains('\n') by {
            assert(init[j] == cs[j]);
        }
        lemma_joined_split(init);
        let x = joined(init) + seq!['/'];
        assert(x.last() == '/');
        assert(x.drop_last() =~= joined(init));
        lemma_split_after_separator(x, cs.last(), '/');
        assert(cs.last() == cs[cs.len() - 1]);
        lemma_split_without_separator(cs.last(), '/');
        assert(init + seq![cs.last()] =~= cs);
        assert(!joined(cs).contains('\n')) by {
            if joined(cs).contains('\n') {
                let i = choose|i: int| 0 <= i < joined(cs).len() && joined(cs)[i] == '\n';
                if i < joined(init).len() {
                    assert(joined(init)[i] == '\n');
                } else if i > joined(init).len() {
                    assert(cs.last()[i - joined(init).len() - 1] == '\n');
                }
            }
        }
    }
}

proof fn lemma_kept_all(cs: Seq<Seq<char>>)
    requires
        forall|j: int| 0 <= j < cs.len() ==> (#[trigger] cs[j]).len() > 0,
    ensures
        kept_candidates(seq![Seq::<char>::empty()] + cs + seq![Seq::<char>::empty()], false) == cs,
    decreases cs.len(),
{
    let e = Seq::<char>::empty();
    let all = seq![e] + cs + seq![e];
    assert(all.drop_last() =~= seq![e] + cs);
    lemma_kept_front(cs);
}

proof fn lemma_kept_front(cs: Seq<Seq<char>>)
    requires
        forall|j: int| 0 <= j < cs.len() ==> (#[trigger] cs[j]).len() > 0,
    ensures
        kept_candidates(seq![Seq::<char>::empty()] + cs, false) == cs,
    decreases cs.len(),
{
    let e = Seq::<char>::empty();
    if cs.len() == 0 {
        assert(seq![e] + cs =~= seq![e]);
        assert(seq![e].drop_last() =~= Seq::<Seq<char>>::empty());
        assert(seq![e].last() == e);
        assert(kept_candidates(Seq::<Seq<char>>::empty(), false) == Seq::<Seq<char>>::empty());
    } else {
        let init = cs.drop_last();
        assert forall|j: int| 0 <= j < init.len() implies (#[trigger] init[j]).len() > 0 by {
            assert(init[j] == cs[j]);
        }
        lemma_kept_front(init);
        assert((seq![e] + cs).drop_last() =~= seq![e] + init);
        assert((seq![e] + cs).last() == cs[cs.len() - 1]);
        assert(cs[cs.len() - 1].len() > 0);
        assert(init.push(cs.last()) =~= cs);
    }
}

/// The first blank at or after `i` is at `k` when none comes before it.
proof fn lemma_blank_at(t: Seq<char>, i: int, k: int)
    requires
        0 <= i <= k < t.len(),
        t[k] == ' ',
        forall|j: int| i <= j < k ==> !is_white_space(#[trigger] t[j]),
    ensures
        blank_index(t, i) == Some(k),
    decreases k - i,
{
    if i < k {
        assert(!is_white_space(t[i]));
        lemma_blank_at(t, i + 1, k);
    }
}

/// A saved line reads back as the entry it was written from.
proof fn lemma_entry_line_reads_back(reading: Seq<char>, cs: Seq<Seq<char>>)
    requires
        savable(reading, cs),
    ensures
        user_line_entry(entry_line(reading, cs)) == Some((reading, cs)),
        !entry_line(reading, cs).contains('\n'),
{
    let j = joined(cs);
    let t = entry_line(reading, cs);
    let n = reading.len() as int;
    lemma_joined_split(cs);
    assert(t[0] == reading[0]);
    assert(!is_white_space(reading[0]));
    assert(trim_start(t) == t);
    assert(t.last() == '/');
    assert(trim_end(t) == t);
    assert(trim(t) == t);
    assert(t[n] == ' ');
    assert forall|i: int| 0 <= i < n implies !is_white_space(#[trigger] t[i]) by {
        assert(t[i] == reading[i]);
    }
    lemma_blank_at(t, 0, n);
    assert(t.subrange(0, n) =~= reading);
    let rest = t.subrange(n, t.len() as int);
    let slashed = seq!['/'] + j + seq!['/'];
    assert(rest.drop_first() =~= slashed);
    assert(rest[0] == ' ');
    assert(slashed[0] == '/');
    assert(trim_start(slashed) == slashed);
    assert(trim_start(rest) == slashed);
    let x = seq!['/'];
    assert(x + (j + seq!['/']) =~= slashed);
    lemma_split_after_separator(x, j + seq!['/'], '/');
    assert(x.drop_last() =~= Seq::<char>::empty());
    assert(split_on(x, '/') == split_on(Seq::<char>::empty(), '/').push(Seq::empty()));
    assert(split_on(x, '/').drop_last() =~= seq![Seq::<char>::empty()]);
    assert((j + seq!['/']).drop_last() =~= j);
    assert(split_on(j + seq!['/'], '/') == cs.push(Seq::empty()));
    assert(split_on(slashed, '/') =~= seq![Seq::<char>::empty()] + cs + seq![Seq::<char>::empty()]);
    lemma_kept_all(cs);
    assert(!t.contains('\n')) by {
        if t.contains('\n') {
            let i = choose|i: int| 0 <= i < t.len() && t[i] == '\n';
            if i < n {
                assert(t[i] == reading[i]);
            } else if n + 1 < i < n + 2 + j.len() {
                assert(j[i - n - 2] == '\n');
            }
        }
    }
}

proof fn lemma_listing_lines(es: Seq<(Seq<char>, Seq<Seq<char>>)>)
    requires
        forall|i: int| 0 <= i < es.len() ==> savable(#[trigger] es[i].0, es[i].1),
    ensures
        split_on(listing_text(es), '\n') == entry_lines(es) + seq![Seq::<char>::empty()],
    decreases es.len(),
{
    let e = Seq::<char>::empty();
    if es.len() == 0 {
        assert(entry_lines(es) + seq![e] =~= seq![e]);
    } else {
        let init = es.drop_last();
        assert forall|i: int| 0 <= i < init.len() implies savable(#[trigger] init[i].0, init[i].1) by {
            assert(init[i] == es[i]);
        }
        lemma_listing_lines(init);
        let last = es[es.len() - 1];
        assert(es.last() == last);
        lemma_entry_line_reads_back(last.0, last.1);
        let line = entry_line(last.0, last.1);
        let a = listing_text(init);
        let tail = line + seq!['\n'];
        assert(tail.drop_last() =~= line);
        lemma_split_without_separator(line, '\n');
        assert(split_on(tail, '\n') == seq![line].push(e));
        assert(entry_lines(init).push(line) =~= entry_lines(es));
        if init.len() == 0 {
            assert(a + tail =~= tail);
            assert(seq![line].push(e) =~= entry_lines(es) + seq![e]);
        } else {
            assert(a.last() == '\n');
            assert(a + line + seq!['\n'] =~= a + tail);
            lemma_split_after_separator(a, tail, '\n');
            assert((entry_lines(init) + seq![e]).drop_last() =~= entry_lines(init));
            assert(entry_lines(init) + seq![line].push(e) =~= entry_lines(es) + seq![e]);
        }
    }
}

/// The entries that `es` lists, later ones replacing earlier ones.
spec fn map_of_listing(es: Seq<(Seq<char>, Seq<Seq<char>>)>) -> Map<Seq<char>, Seq<Seq<char>>>
    decreases es.len(),
{
    if es.len() == 0 {
        Map::empty()
    } else {
        map_of_listing(es.drop_last()).insert(es.last().0, es.last().1)
    }
}

proof fn lemma_lines_load(es: Seq<(Seq<char>, Seq<Seq<char>>)>, header: Seq<char>)
    requires
        forall|i: int| 0 <= i < es.len() ==> savable(#[trigger] es[i].0, es[i].1),
        user_line_entry(header) is None,
    ensures
        user_entries_of_lines(seq![header] + entry_lines(es)) == map_of_listing(es),
    decreases es.len(),
{
    if es.len() == 0 {
        assert(seq![header] + entry_lines(es) =~= seq![header]);
        assert(seq![header].drop_last() =~= Seq::<Seq<char>>::empty());
        assert(seq![header].last() == header);
        assert(user_entries_of_lines(Seq::<Seq<char>>::empty()) == Map::<Seq<char>, Seq<Seq<char>>>::empty());
    } else {
        let init = es.drop_last();
        assert forall|i: int| 0 <= i < init.len() implies savable(#[trigger] init[i].0, init[i].1) by {
            assert(init[i] == es[i]);
        }
        lemma_lines_load(init, header);
        let last = es[es.len() - 1];
        assert(es.last() == last);
        lemma_entry_line_reads_back(last.0, last.1);
        let all = seq![header] + entry_lines(es);
        assert(all.drop_last() =~= seq![header] + entry_lines(init));
        assert(entry_lines(es)[es.len() - 1] == entry_line(last.0, last.1));
        assert(all.last() == entry_line(last.0, last.1));
        assert(user_entries_of_lines(all) == user_entries_of_lines(all.drop_last()).insert(last.0, last.1));
    }
}

proof fn lemma_listing_map(es: Seq<(Seq<char>, Seq<Seq<char>>)>, m: Map<Seq<char>, Seq<Seq<char>>>)
    requires
        sorted_listing_of(es, m),
    ensures
        map_of_listing(es) == m,
{
    lemma_listing_map_prefix(es, es.len() as int);
    assert(es.subrange(0, es.len() as int) =~= es);
    assert forall|k: Seq<char>| m.contains_key(k) <==> map_of_listing(es).contains_key(k) by {
        if m.contains_key(k) {
            let i = choose|i: int| 0 <= i < es.len() && es[i].0 == k;
        }
    }
    assert forall|k: Seq<char>| #[trigger] m.contains_key(k) implies map_of_listing(es)[k] == m[k] by {
        let i = choose|i: int| 0 <= i < es.len() && es[i].0 == k;
    }
    assert(map_of_listing(es) =~= m);
}

proof fn lemma_listing_map_prefix(es: Seq<(Seq<char>, Seq<Seq<char>>)>, n: int)
    requires
        0 <= n <= es.len(),
        forall|i: int, j: int| 0 <= i < j < es.len() ==> crate::text::seq_lt(#[trigger] es[i].0, #[trigger] es[j].0),
    ensures
        forall|k: Seq<char>| #[trigger] map_of_listing(es.subrange(0, n)).contains_key(k) <==> exists|i: int| 0 <= i < n && es[i].0 == k,
        forall|i: int| 0 <= i < n ==> #[trigger] map_of_listing(es.subrange(0, n))[es[i].0] == es[i].1,
    decreases n,
{
    let pre = es.subrange(0, n);
    if n > 0 {
        lemma_listing_map_prefix(es, n - 1);
        let prev = es.subrange(0, n - 1);
        assert(pre.drop_last() =~= prev);
        assert(pre.last() == es[n - 1]);
        assert(map_of_listing(pre) == map_of_listing(prev).insert(es[n - 1].0, es[n - 1].1));
        assert forall|k: Seq<char>| #[trigger] map_of_listing(pre).contains_key(k) <==> exists|i: int| 0 <= i < n && es[i].0 == k by {
            if map_of_listing(pre).contains_key(k) && k != es[n - 1].0 {
                assert(map_of_listing(prev).contains_key(k));
                let i = choose|i: int| 0 <= i < n - 1 && es[i].0 == k;
                assert(0 <= i < n && es[i].0 == k);
            }
            if exists|i: int| 0 <= i < n && es[i].0 == k {
                let i = choose|i: int| 0 <= i < n && es[i].0 == k;
                if i < n - 1 {
                    assert(map_of_listing(prev).contains_key(k));
                }
            }
        }
        assert forall|i: int| 0 <= i < n implies #[trigger] map_of_listing(pre)[es[i].0] == es[i].1 by {
            if i < n - 1 {
                crate::text::lemma_seq_lt_order(es[i].0, es[n - 1].0, es[n - 1].0);
                assert(crate::text::seq_lt(es[i].0, es[n - 1].0));
                assert(es[i].0 != es[n - 1].0);
                assert(map_of_listing(prev)[es[i].0] == es[i].1);
            }
        }
    } else {
        assert(pre =~= Seq::<(Seq<char>, Seq<Seq<char>>)>::empty());
    }
}

/// Saving and loading gives back the entries: the text that `to_text` writes
/// for a dictionary whose entries the format can hold is read by `from_text`
/// as exactly those entries.
pub proof fn lemma_saved_text_loads_back(es: Seq<(Seq<char>, Seq<Seq<char>>)>, m: Map<Seq<char>, Seq<Seq<char>>>)
    requires
        sorted_listing_of(es, m),
        forall|k: Seq<char>| #[trigger] m.contains_key(k) ==> savable(k, m[k]),
    ensures
        user_entries_of_lines(split_on(USER_DICT_HEADER@ + seq!['\n'] + listing_text(es), '\n')) == m,
{
    let e = Seq::<char>::empty();
    assert forall|i: int| 0 <= i < es.len() implies savable(#[trigger] es[i].0, es[i].1) by {
        assert(m.contains_key(es[i].0));
    }
    reveal_strlit(";; japinput ユーザー辞書");
    let h = USER_DICT_HEADER@;
    assert(h == ";; japinput ユーザー辞書"@);
    assert(!h.contains('\n'));
    lemma_split_without_separator(h, '\n');
    assert(trim(h) == h);
    assert(user_line_entry(h) is None);
    let x = h + seq!['\n'];
    assert(x.drop_last() =~= h);
    lemma_split_after_separator(x, listing_text(es), '\n');
    assert(split_on(x, '\n').drop_last() =~= seq![h]);
    lemma_listing_lines(es);
    let all = seq![h] + (entry_lines(es) + seq![e]);
    assert(all.drop_last() =~= seq![h] + entry_lines(es));
    assert(user_line_entry(all.last()) is None);
    lemma_lines_load(es, h);
    lemma_listing_map(es, m);
}

/// Removing `c` distributes over concatenation.
proof fn lemma_without_concat(a: Seq<Seq<char>>, b: Seq<Seq<char>>, c: Seq<char>)
    ensures
        without(a + b, c) == without(a, c) + without(b, c),
    decreases b.len(),
{
    if b.len() == 0 {
        assert(a + b =~= a);
        assert(without(a, c) + without(b, c) =~= without(a, c));
    } else {
        lemma_without_concat(a, b.drop_last(), c);
        assert((a + b).drop_last() =~= a + b.drop_last());
        assert((a + b).last() == b.last());
        if b.last() != c {
            assert(without(a, c) + without(b.drop_last(), c).push(b.last()) =~= (without(a, c)
                + without(b.drop_last(), c)).push(b.last()));
        }
    }
}

/// What is left after removing `c` is what was there, but `c`.
proof fn lemma_without_contains(list: Seq<Seq<char>>, c: Seq<char>, x: Seq<char>)
    ensures
        without(list, c).contains(x) <==> list.contains(x) && x != c,
    decreases list.len(),
{
    if list.len() > 0 {
        lemma_without_contains(list.drop_last(), c, x);
        let rest = without(list.drop_last(), c);
        assert(list =~= list.drop_last().push(list.last()));
        if list.contains(x) && x != c && !list.drop_last().contains(x) {
            let i = choose|i: int| 0 <= i < list.len() && list[i] == x;
            if i < list.len() - 1 {
                assert(list.drop_last()[i] == x);
            }
            assert(rest.push(list.last())[rest.len() as int] == x);
        }
        if list.drop_last().contains(x) {
            let i = choose|i: int| 0 <= i < list.len() - 1 && list.drop_last()[i] == x;
            assert(list[i] == x);
        }
        if list.last() != c && rest.contains(x) {
            let i = choose|i: int| 0 <= i < rest.len() && rest[i] == x;
            assert(rest.push(list.last())[i] == x);
        }
        if list.last() != c && rest.push(list.last()).contains(x) && x != list.last() {
            let i = choose|i: int| 0 <= i < rest.len() + 1 && rest.push(list.last())[i] == x;
            assert(rest[i] == x);
        }
        if list.last() == x {
            assert(list[list.len() - 1] == x);
        }
    }
}

/// Removing `c` from a list without `c` changes nothing.
proof fn lemma_without_absent(list: Seq<Seq<char>>, c: Seq<char>)
    requires
        !list.contains(c),
    ensures
        without(list, c) == list,
    decreases list.len(),
{
    if list.len() > 0 {
        assert(!list.drop_last().contains(c)) by {
            if list.drop_last().contains(c) {
                let i = choose|i: int| 0 <= i < list.len() - 1 && list.drop_last()[i] == c;
                assert(list[i] == c);
            }
        }
        lemma_without_absent(list.drop_last(), c);
        assert(list.last() != c) by {
            assert(list[list.len() - 1] == list.last());
        }
        assert(list.drop_last().push(list.last()) =~= list);
    }
}

/// Recording the same pair twice is the same as recording it once; the candidate
/// then heads its reading's list and appears there exactly once. Recording a
/// candidate the reading already lists moves it to the front and keeps the set of
/// candidates as it was.
pub proof fn lemma_record_idempotent(
    m: Map<Seq<char>, Seq<Seq<char>>>,
    reading: Seq<char>,
    candidate: Seq<char>,
)
    ensures
        recorded(recorded(m, reading, candidate), reading, candidate) == recorded(m, reading, candidate),
        recorded(m, reading, candidate)[reading][0] == candidate,
        forall|i: int|
            0 < i < recorded(m, reading, candidate)[reading].len() ==> #[trigger] recorded(
                m,
                reading,
                candidate,
            )[reading][i] != candidate,
        list_of(m, reading).contains(candidate) ==> recorded(m, reading, candidate)[reading].to_set()
            == list_of(m, reading).to_set(),
{
    let l = list_of(m, reading);
    let w = without(l, candidate);
    let p = promoted(l, candidate);
    let m1 = recorded(m, reading, candidate);
    assert(m1[reading] == p);
    assert(!w.contains(candidate)) by {
        lemma_without_contains(l, candidate, candidate);
    }
    assert forall|i: int| 0 < i < p.len() implies #[trigger] p[i] != candidate by {
        assert(p[i] == w[i - 1]);
    }
    assert(list_of(m1, reading) == p);
    lemma_without_concat(seq![candidate], w, candidate);
    assert(without(seq![candidate], candidate) =~= Seq::<Seq<char>>::empty()) by {
        let e = Seq::<Seq<char>>::empty();
        assert(seq![candidate].drop_last() =~= e);
        assert(without(e, candidate) == e);
        assert(seq![candidate].last() == candidate);
    }
    lemma_without_absent(w, candidate);
    assert(Seq::<Seq<char>>::empty() + w =~= w);
    assert(promoted(p, candidate) == p);
    assert(m1.insert(reading, p) =~= m1);
    if l.contains(candidate) {
        assert forall|x: Seq<char>| p.to_set().contains(x) <==> l.to_set().contains(x) by {
            lemma_without_contains(l, candidate, x);
            if x == candidate {
                assert(p[0] == x);
            } else if p.contains(x) {
                let i = choose|i: int| 0 <= i < p.len() && p[i] == x;
                assert(w[i - 1] == x);
            } else if w.contains(x) {
                let i = choose|i: int| 0 <= i < w.len() && w[i] == x;
                assert(p[i + 1] == x);
            }
        }
        assert(p.to_set() =~= l.to_set());
    }
}

/// Removing `c` keeps a list free of repeats.
proof fn lemma_without_no_duplicates(list: Seq<Seq<char>>, c: Seq<char>)
    requires
        list.no_duplicates(),
    ensures
        without(list, c).no_duplicates(),
    decreases list.len(),
{
    if list.len() > 0 {
        let init = list.drop_last();
        assert(init.no_duplicates()) by {
            assert forall|i: int, j: int| 0 <= i < init.len() && 0 <= j < init.len() && i != j implies init[i] != init[j] by {
                assert(list[i] == init[i] && list[j] == init[j]);
            }
        }
        lemma_without_no_duplicates(init, c);
        let rest = without(init, c);
        if list.last() != c {
            assert(!rest.contains(list.last())) by {
                lemma_without_contains(init, c, list.last());
                if init.contains(list.last()) {
                    let i = choose|i: int| 0 <= i < init.len() && init[i] == list.last();
                    assert(list[i] == list[list.len() - 1]);
                }
            }
            let n = rest.push(list.last());
            assert forall|i: int, j: int| 0 <= i < n.len() && 0 <= j < n.len() && i != j implies n[i] != n[j] by {
                if j == rest.len() {
                    assert(rest[i] == n[i]);
                } else if i == rest.len() {
                    assert(rest[j] == n[j]);
                }
            }
        }
    }
}

/// Recording keeps a reading's list free of repeats.
pub proof fn lemma_record_no_duplicates(
    m: Map<Seq<char>, Seq<Seq<char>>>,
    reading: Seq<char>,
    candidate: Seq<char>,
)
    requires
        list_of(m, reading).no_duplicates(),
    ensures
        recorded(m, reading, candidate)[reading].no_duplicates(),
{
    let l = list_of(m, reading);
    let w = without(l, candidate);
    let p = promoted(l, candidate);
    lemma_without_no_duplicates(l, candidate);
    lemma_without_contains(l, candidate, candidate);
    assert forall|i: int, j: int| 0 <= i < p.len() && 0 <= j < p.len() && i != j implies p[i] != p[j] by {
        if i > 0 && j > 0 {
            assert(p[i] == w[i - 1] && p[j] == w[j - 1]);
        } else if i == 0 {
            assert(p[j] == w[j - 1]);
        } else {
            assert(p[i] == w[i - 1]);
        }
    }
}

} // verus!
