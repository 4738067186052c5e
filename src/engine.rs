//! The conversion engine: a three-state machine (direct input, composing romaji,
//! choosing a candidate) driven by editing commands.

use vstd::prelude::*;

use crate::candidate::{CandidateList, CandidateView};
use crate::dictionary::Dictionary;
use crate::input_state::{backspaced, empty_input, fed, flushed, InputState, InputView};
use crate::user_dictionary::{recorded, UserDictView, UserDictionary};

verus! {

/// Which phase of input the engine is in.
#[derive(Debug, Clone, Copy, PartialEq, Eq, Structural)]
pub enum EngineState {
    /// No input in progress.
    Direct,
    /// Romaji being typed and shown as kana.
    Composing,
    /// A candidate being chosen.
    Converting,
}

/// An editing command.
#[derive(Debug, Clone, Copy, PartialEq, Eq, Structural)]
pub enum EngineCommand {
    /// A typed character.
    InsertChar(char),
    /// Start converting, or move to the next candidate.
    Convert,
    /// The next candidate.
    NextCandidate,
    /// The previous candidate.
    PrevCandidate,
    /// Confirm the text or candidate.
    Commit,
    /// Abandon the current step.
    Cancel,
    /// Remove one character, or leave candidate selection.
    Backspace,
}

/// What a command produced.
#[derive(Debug, Clone)]
pub struct EngineOutput {
    /// Text to hand to the application now (empty when none).
    pub committed: String,
    /// Text to show as the composition in progress (empty when none).
    pub display: String,
    /// The cursor in the candidate list, while choosing.
    pub candidate_index: Option<usize>,
}

/// Abstract value of an `EngineOutput`.
pub struct OutputView {
    pub committed: Seq<char>,
    pub display: Seq<char>,
    pub candidate_index: Option<nat>,
}

pub open spec fn output_view(o: EngineOutput) -> OutputView {
    OutputView {
        committed: o.committed@,
        display: o.display@,
        candidate_index: match o.candidate_index {
            Some(i) => Some(i as nat),
            None => None,
        },
    }
}

/// Abstract state of the engine.
pub struct EngineView {
    pub state: EngineState,
    pub input: InputView,
    /// The system dictionary, when there is one.
    pub dict: Option<Map<Seq<char>, Seq<Seq<char>>>>,
    /// The user dictionary, when there is one.
    pub user: Option<UserDictView>,
    pub candidates: Option<CandidateView>,
    /// The reading of the last conversion.
    pub reading: Seq<char>,
}

/// The invariant of the state machine: candidates exist exactly while converting,
/// and then the list is non-empty with the cursor on an element; in direct mode
/// nothing is being typed.
pub open spec fn consistent(v: EngineView) -> bool {
    match v.state {
        EngineState::Direct => v.candidates is None && v.input == empty_input(),
        EngineState::Composing => v.candidates is None,
        EngineState::Converting => v.candidates matches Some(c) && c.items.len() > 0 && c.cursor_ok(),
    }
}

pub open spec fn empty_out() -> OutputView {
    OutputView { committed: Seq::empty(), display: Seq::empty(), candidate_index: None }
}

/// Output while composing: the confirmed kana followed by the pending romaji.
pub open spec fn composing_out(i: InputView) -> OutputView {
    OutputView { committed: Seq::empty(), display: i.output + i.pending, candidate_index: None }
}

/// Output while converting: the candidate under the cursor and the cursor.
pub open spec fn converting_out(c: Option<CandidateView>) -> OutputView {
    match c {
        Some(cv) => OutputView {
            committed: Seq::empty(),
            display: match cv.current() {
                Some(s) => s,
                None => Seq::empty(),
            },
            candidate_index: Some(cv.index),
        },
        None => empty_out(),
    }
}

/// The candidate under the cursor, or empty text.
pub open spec fn selected(c: Option<CandidateView>) -> Seq<char> {
    match c {
        Some(cv) => match cv.current() {
            Some(s) => s,
            None => Seq::empty(),
        },
        None => Seq::empty(),
    }
}

/// The user dictionary after `committed` was chosen for `reading`: learned when
/// there is a user dictionary and both texts are non-empty.
pub open spec fn learned(user: Option<UserDictView>, reading: Seq<char>, committed: Seq<char>) -> Option<
    UserDictView,
> {
    match user {
        Some(u) => if committed.len() > 0 && reading.len() > 0 {
            Some(UserDictView { entries: recorded(u.entries, reading, committed), dirty: true })
        } else {
            user
        },
        None => None,
    }
}

/// `acc` followed by the elements of `more` that are not already there, in order.
pub open spec fn append_new(acc: Seq<Seq<char>>, more: Seq<Seq<char>>) -> Seq<Seq<char>>
    decreases more.len(),
{
    if more.len() == 0 {
        acc
    } else {
        let m = append_new(acc, more.drop_last());
        if m.contains(more.last()) {
            m
        } else {
            m.push(more.last())
        }
    }
}

/// The user dictionary's candidates for `reading` (empty when it has none).
pub open spec fn user_candidates(user: Option<UserDictView>, reading: Seq<char>) -> Seq<Seq<char>> {
    match user {
        Some(u) => if u.entries.contains_key(reading) {
            u.entries[reading]
        } else {
            Seq::empty()
        },
        None => Seq::empty(),
    }
}

/// The system dictionary's candidates for `reading` (empty when it has none).
pub open spec fn system_candidates(dict: Option<Map<Seq<char>, Seq<Seq<char>>>>, reading: Seq<char>) -> Seq<
    Seq<char>,
> {
    match dict {
        Some(d) => if d.contains_key(reading) {
            d[reading]
        } else {
            Seq::empty()
        },
        None => Seq::empty(),
    }
}

/// Candidates for `reading`: the user's first, in their order, then the system
/// dictionary's that are not already listed.
pub open spec fn merged_candidates(v: EngineView, reading: Seq<char>) -> Seq<Seq<char>> {
    append_new(user_candidates(v.user, reading), system_candidates(v.dict, reading))
}

/// `Convert` while composing: the flushed kana become the reading. Without
/// candidates the kana are committed as they are; otherwise selection starts
/// on the first candidate.
pub open spec fn convert_step(v: EngineView) -> (EngineView, OutputView) {
    let f = flushed(v.input);
    let reading = f.output;
    let m = merged_candidates(v, reading);
    if m.len() == 0 {
        (
            EngineView { state: EngineState::Direct, input: empty_input(), reading, ..v },
            OutputView { committed: reading, display: Seq::empty(), candidate_index: None },
        )
    } else {
        (
            EngineView {
                state: EngineState::Converting,
                input: f,
                candidates: Some(CandidateView { items: m, index: 0 }),
                reading,
                ..v
            },
            OutputView { committed: Seq::empty(), display: m[0], candidate_index: Some(0) },
        )
    }
}

/// The transition table: next state and output for each state and command.
pub open spec fn transition(v: EngineView, cmd: EngineCommand) -> (EngineView, OutputView) {
    match v.state {
        EngineState::Direct => match cmd {
            EngineCommand::InsertChar(c) => {
                let i = fed(v.input, c);
                (EngineView { state: EngineState::Composing, input: i, ..v }, composing_out(i))
            },
            _ => (v, empty_out()),
        },
        EngineState::Composing => match cmd {
            EngineCommand::InsertChar(c) => {
                let i = fed(v.input, c);
                (EngineView { input: i, ..v }, composing_out(i))
            },
            EngineCommand::Convert => convert_step(v),
            EngineCommand::Commit => (
                EngineView { state: EngineState::Direct, input: empty_input(), ..v },
                OutputView { committed: flushed(v.input).output, display: Seq::empty(), candidate_index: None },
            ),
            EngineCommand::Cancel => (
                EngineView { state: EngineState::Direct, input: empty_input(), ..v },
                empty_out(),
            ),
            EngineCommand::Backspace => {
                let i = backspaced(v.input);
                let s = if i.output.len() == 0 && i.pending.len() == 0 {
                    EngineState::Direct
                } else {
                    EngineState::Composing
                };
                (EngineView { state: s, input: i, ..v }, composing_out(i))
            },
            _ => (v, composing_out(v.input)),
        },
        EngineState::Converting => match cmd {
            EngineCommand::NextCandidate | EngineCommand::Convert => {
                let c = match v.candidates {
                    Some(cv) => Some(CandidateView {
                        index: ((cv.index as int + 1) % (cv.items.len() as int)) as nat,
                        ..cv
                    }),
                    None => None,
                };
                (EngineView { candidates: c, ..v }, converting_out(c))
            },
            EngineCommand::PrevCandidate => {
                let c = match v.candidates {
                    Some(cv) => Some(CandidateView {
                        index: ((cv.index as int + cv.items.len() as int - 1) % (cv.items.len() as int)) as nat,
                        ..cv
                    }),
                    None => None,
                };
                (EngineView { candidates: c, ..v }, converting_out(c))
            },
            EngineCommand::Commit => {
                let chosen = selected(v.candidates);
                (
                    EngineView {
                        state: EngineState::Direct,
                        input: empty_input(),
                        candidates: None,
                        user: learned(v.user, v.reading, chosen),
                        ..v
                    },
                    OutputView { committed: chosen, display: Seq::empty(), candidate_index: None },
                )
            },
            EngineCommand::Cancel | EngineCommand::Backspace => (
                EngineView { state: EngineState::Composing, candidates: None, ..v },
                composing_out(v.input),
            ),
            EngineCommand::InsertChar(ch) => {
                let chosen = selected(v.candidates);
                let i = fed(empty_input(), ch);
                (
                    EngineView {
                        state: EngineState::Composing,
                        input: i,
                        candidates: None,
                        user: learned(v.user, v.reading, chosen),
                        ..v
                    },
                    OutputView {
                        committed: chosen,
                        display: i.output + i.pending,
                        candidate_index: None,
                    },
                )
            },
        },
    }
}

/// The conversion engine.
pub struct ConversionEngine {
    state: EngineState,
    input: InputState,
    dict: Option<Dictionary>,
    user_dict: Option<UserDictionary>,
    candidates: Option<CandidateList>,
    reading: String,
}

impl View for ConversionEngine {
    type V = EngineView;

    closed spec fn view(&self) -> EngineView {
        EngineView {
            state: self.state,
            input: self.input@,
            dict: match self.dict {
                Some(d) => Some(d@),
                None => None,
            },
            user: match self.user_dict {
                Some(u) => Some(u@),
                None => None,
            },
            candidates: match self.candidates {
                Some(c) => Some(c@),
                None => None,
            },
            reading: self.reading@,
        }
    }
}

impl ConversionEngine {
    /// Both dictionaries are well formed and the state machine is consistent.
    pub closed spec fn wf(&self) -> bool {
        &&& (self.dict matches Some(d) ==> d.wf())
        &&& (self.user_dict matches Some(u) ==> u.wf())
        &&& consistent(self@)
    }

    /// An engine in direct mode over an optional system dictionary, without a user dictionary.
    pub fn new(dict: Option<Dictionary>) -> (r: Self)
        requires
            dict matches Some(d) ==> d.wf(),
        ensures
            r.wf(),
            consistent(r@),
            r@.state == EngineState::Direct,
            r@.input == empty_input(),
            r@.dict == (match dict {
                Some(d) => Some(d@),
                None => None::<Map<Seq<char>, Seq<Seq<char>>>>,
            }),
            r@.user is None,
            r@.candidates is None,
            r@.reading.len() == 0,
    {
        ConversionEngine {
            state: EngineState::Direct,
            input: InputState::new(),
            dict,
            user_dict: None,
            candidates: None,
            reading: String::new(),
        }
    }

    /// An engine in direct mode over optional system and user dictionaries.
    pub fn new_with_user_dict(dict: Option<Dictionary>, user_dict: Option<UserDictionary>) -> (r: Self)
        requires
            dict matches Some(d) ==> d.wf(),
            user_dict matches Some(u) ==> u.wf(),
        ensures
            r.wf(),
            consistent(r@),
            r@.state == EngineState::Direct,
            r@.input == empty_input(),
            r@.dict == (match dict {
                Some(d) => Some(d@),
                None => None::<Map<Seq<char>, Seq<Seq<char>>>>,
            }),
            r@.user == (match user_dict {
                Some(u) => Some(u@),
                None => None::<UserDictView>,
            }),
            r@.candidates is None,
            r@.reading.len() == 0,
    {
        ConversionEngine {
            state: EngineState::Direct,
            input: InputState::new(),
            dict,
            user_dict,
            candidates: None,
            reading: String::new(),
        }
    }

    /// The user dictionary, for saving it.
    pub fn user_dict_mut(&mut self) -> (r: Option<&mut UserDictionary>)
        requires
            old(self).wf(),
        ensures
            r is Some <==> old(self)@.user is Some,
            r matches Some(u) ==> u@ == old(self)@.user->0 && u.wf(),
    {
        match &mut self.user_dict {
            Some(u) => Some(u),
            None => None,
        }
    }

    /// The current state.
    pub fn state(&self) -> (r: EngineState)
        ensures
            r == self@.state,
    {
        self.state
    }

    /// The candidates, while converting.
    pub fn candidates(&self) -> (r: Option<&[String]>)
        ensures
            r is Some <==> self@.candidates is Some,
            r matches Some(cs) ==> cs.deep_view() == self@.candidates->0.items,
    {
        match &self.candidates {
            Some(cl) => Some(cl.candidates()),
            None => None,
        }
    }

    /// The reading of the last conversion.
    pub fn reading(&self) -> (r: &str)
        ensures
            r@ == self@.reading,
    {
        self.reading.as_str()
    }

    fn empty_output(&self) -> (r: EngineOutput)
        ensures
            output_view(r) == empty_out(),
    {
        EngineOutput { committed: String::new(), display: String::new(), candidate_index: None }
    }

    fn composing_output(&self) -> (r: EngineOutput)
        ensures
            output_view(r) == composing_out(self@.input),
    {
        let mut display = self.input.output().to_string();
        crate::text::push_str(&mut display, self.input.pending());
        EngineOutput { committed: String::new(), display, candidate_index: None }
    }

    fn converting_output(&self) -> (r: EngineOutput)
        ensures
            output_view(r) == converting_out(self@.candidates),
    {
        match &self.candidates {
            Some(cl) => {
                let display = match cl.current() {
                    Some(s) => s.to_string(),
                    None => String::new(),
                };
                EngineOutput { committed: String::new(), display, candidate_index: Some(cl.index()) }
            },
            None => self.empty_output(),
        }
    }

    /// The merged candidate list for `reading`.
    fn merge_candidates(&self, reading: &str) -> (r: Vec<String>)
        requires
            self.wf(),
        ensures
            r.deep_view() == merged_candidates(self@, reading@),
    {
        let mut merged: Vec<String> = Vec::new();
        let ghost u = user_candidates(self@.user, reading@);
        match &self.user_dict {
            Some(ud) => match ud.lookup(reading) {
                Some(cs) => {
                    let mut i: usize = 0;
                    while i < cs.len()
                        invariant
                            i <= cs@.len(),
                            merged.deep_view() == cs.deep_view().subrange(0, i as int),
                        decreases cs@.len() - i,
                    {
                        let ghost before = merged.deep_view();
                        let c = cs[i].clone();
                        assert(c@ == cs.deep_view()[i as int]);
                        merged.push(c);
                        assert(merged.deep_view() =~= before.push(c@));
                        assert(merged.deep_view() =~= cs.deep_view().subrange(0, i + 1));
                        i = i + 1;
                    }
                    assert(cs.deep_view().subrange(0, cs@.len() as int) =~= cs.deep_view());
                },
                None => {
                    assert(merged.deep_view() =~= u);
                },
            },
            None => {
                assert(merged.deep_view() =~= u);
            },
        }
        assert(merged.deep_view() == u);
        match &self.dict {
            Some(d) => match d.lookup(reading) {
                Some(cs) => {
                    let mut i: usize = 0;
                    assert(cs.deep_view().subrange(0, 0) =~= Seq::<Seq<char>>::empty());
                    while i < cs.len()
                        invariant
                            i <= cs@.len(),
                            merged.deep_view() == append_new(u, cs.deep_view().subrange(0, i as int)),
                        decreases cs@.len() - i,
                    {
                        let ghost pre = cs.deep_view().subrange(0, i + 1);
                        assert(pre.drop_last() =~= cs.deep_view().subrange(0, i as int));
                        assert(pre.last() == cs@[i as int]@);
                        if !contains_string(&merged, &cs[i]) {
                            let ghost before = merged.deep_view();
                            merged.push(cs[i].clone());
                            assert(merged.deep_view() =~= before.push(cs@[i as int]@));
                        }
                        i = i + 1;
                    }
                    assert(cs.deep_view().subrange(0, cs@.len() as int) =~= cs.deep_view());
                },
                None => {},
            },
            None => {},
        }
        merged
    }

    /// Records `committed` for the current reading in the user dictionary, when
    /// there is one and both texts are non-empty.
    fn learn(&mut self, committed: &String)
        requires
            old(self).wf(),
        ensures
            final(self).wf(),
            final(self)@ == (EngineView { user: learned(old(self)@.user, old(self)@.reading, committed@), ..old(self)@ }),
    {
        if !committed.as_str().is_empty() && !self.reading.as_str().is_empty() {
            match &mut self.user_dict {
                Some(ud) => {
                    ud.record(self.reading.as_str(), committed.as_str());
                },
                None => {},
            }
        }
    }

    /// `Convert` while composing.
    fn do_convert(&mut self) -> (r: EngineOutput)
        requires
            old(self).wf(),
            old(self)@.state == EngineState::Composing,
        ensures
            final(self).wf(),
            (final(self)@, output_view(r)) == convert_step(old(self)@),
    {
        self.input.flush();
        let hiragana = self.input.output().to_string();
        self.reading = hiragana.clone();
        let merged = self.merge_candidates(hiragana.as_str());
        if merged.len() == 0 {
            self.input.reset();
            self.state = EngineState::Direct;
            EngineOutput { committed: hiragana, display: String::new(), candidate_index: None }
        } else {
            let cl = CandidateList::new(merged);
            let display = match cl.current() {
                Some(s) => s.to_string(),
                None => String::new(),
            };
            let idx = cl.index();
            self.candidates = Some(cl);
            self.state = EngineState::Converting;
            EngineOutput { committed: String::new(), display, candidate_index: Some(idx) }
        }
    }

    /// Applies one command and says what to commit and what to show.
    pub fn process(&mut self, command: EngineCommand) -> (out: EngineOutput)
        requires
            old(self).wf(),
        ensures
            final(self).wf(),
            consistent(final(self)@),
            (final(self)@, output_view(out)) == transition(old(self)@, command),
    {
        match self.state {
            EngineState::Direct => match command {
                EngineCommand::InsertChar(ch) => {
                    self.input.feed_char(ch);
                    self.state = EngineState::Composing;
                    self.composing_output()
                },
                _ => self.empty_output(),
            },
            EngineState::Composing => match command {
                EngineCommand::InsertChar(ch) => {
                    self.input.feed_char(ch);
                    self.composing_output()
                },
                EngineCommand::Convert => self.do_convert(),
                EngineCommand::Commit => {
                    self.input.flush();
                    let committed = self.input.output().to_string();
                    self.input.reset();
                    self.state = EngineState::Direct;
                    EngineOutput { committed, display: String::new(), candidate_index: None }
                },
                EngineCommand::Cancel => {
                    self.input.reset();
                    self.state = EngineState::Direct;
                    self.empty_output()
                },
                EngineCommand::Backspace => {
                    self.input.backspace();
                    if self.input.is_empty() {
                        self.state = EngineState::Direct;
                        assert(self.input@.output =~= Seq::<char>::empty());
                        assert(self.input@.pending =~= Seq::<char>::empty());
                    }
                    self.composing_output()
                },
                _ => self.composing_output(),
            },
            EngineState::Converting => match command {
                EngineCommand::NextCandidate | EngineCommand::Convert => {
                    match &mut self.candidates {
                        Some(cl) => cl.next(),
                        None => {},
                    }
                    self.converting_output()
                },
                EngineCommand::PrevCandidate => {
                    match &mut self.candidates {
                        Some(cl) => cl.prev(),
                        None => {},
                    }
                    self.converting_output()
                },
                EngineCommand::Commit => {
                    let committed = self.selected_text();
                    self.learn(&committed);
                    self.candidates = None;
                    self.input.reset();
                    self.state = EngineState::Direct;
                    EngineOutput { committed, display: String::new(), candidate_index: None }
                },
                EngineCommand::Cancel | EngineCommand::Backspace => {
                    self.candidates = None;
                    self.state = EngineState::Composing;
                    self.composing_output()
                },
                EngineCommand::InsertChar(ch) => {
                    let committed = self.selected_text();
                    self.learn(&committed);
                    self.candidates = None;
                    self.input.reset();
                    self.input.feed_char(ch);
                    self.state = EngineState::Composing;
                    let composing = self.composing_output();
                    EngineOutput { committed, display: composing.display, candidate_index: None }
                },
            },
        }
    }

    /// A copy of the candidate under the cursor, or empty text.
    fn selected_text(&self) -> (r: String)
        ensures
            r@ == selected(self@.candidates),
    {
        match &self.candidates {
            Some(cl) => match cl.select() {
                Some(s) => s,
                None => String::new(),
            },
            None => String::new(),
        }
    }
}

/// Whether `v` holds a string equal to `s`.
fn contains_string(v: &Vec<String>, s: &String) -> (r: bool)
    ensures
        r == v.deep_view().contains(s@),
{
    let mut i: usize = 0;
    while i < v.len()
        invariant
            i <= v@.len(),
            forall|j: int| 0 <= j < i ==> v.deep_view()[j] != s@,
        decreases v@.len() - i,
    {
        if v[i] == *s {
            assert(v.deep_view()[i as int] == s@);
            return true;
        }
        i = i + 1;
    }
    false
}

/// No candidate appears twice in the list that a conversion offers, as long as
/// the user dictionary's own list for the reading has no repeats (a list built
/// by recording never has).
pub proof fn lemma_merge_no_duplicates(v: EngineView, reading: Seq<char>)
    requires
        user_candidates(v.user, reading).no_duplicates(),
    ensures
        merged_candidates(v, reading).no_duplicates(),
{
    lemma_append_new_no_duplicates(user_candidates(v.user, reading), system_candidates(v.dict, reading));
}

proof fn lemma_append_new_no_duplicates(acc: Seq<Seq<char>>, more: Seq<Seq<char>>)
    requires
        acc.no_duplicates(),
    ensures
        append_new(acc, more).no_duplicates(),
    decreases more.len(),
{
    if more.len() > 0 {
        lemma_append_new_no_duplicates(acc, more.drop_last());
        let m = append_new(acc, more.drop_last());
        if !m.contains(more.last()) {
            let n = m.push(more.last());
            assert forall|i: int, j: int| 0 <= i < n.len() && 0 <= j < n.len() && i != j implies n[i] != n[j] by {
                if j == m.len() {
                    assert(m[i] == n[i]);
                } else if i == m.len() {
                    assert(m[j] == n[j]);
                }
            }
        }
    }
}

/// The machine stays consistent under every command. While it is choosing, the
/// list is non-empty and what it shows is the candidate under the cursor.
pub proof fn lemma_converting_shows_current(v: EngineView, cmd: EngineCommand)
    requires
        consistent(v),
    ensures
        consistent(transition(v, cmd).0),
        transition(v, cmd).0.state == EngineState::Converting ==> {
            &&& transition(v, cmd).0.candidates matches Some(c)
            &&& c.items.len() > 0
            &&& c.current() == Some(transition(v, cmd).1.display)
            &&& transition(v, cmd).1.candidate_index == Some(c.index)
        },
{
    let next = transition(v, cmd).0;
    if v.state == EngineState::Composing && cmd == EngineCommand::Backspace {
        let i = backspaced(v.input);
        if i.output.len() == 0 && i.pending.len() == 0 {
            assert(i.output =~= Seq::<char>::empty());
            assert(i.pending =~= Seq::<char>::empty());
        }
    }
    if v.state == EngineState::Converting {
        let cv = v.candidates->0;
        let n = cv.items.len() as int;
        assert(0 <= (cv.index as int + 1) % n < n);
        assert(0 <= (cv.index as int + n - 1) % n < n);
    }
}

} // verus!
