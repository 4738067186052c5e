//! The incremental input buffer: confirmed kana plus the romaji still waiting
//! to be resolved, fed one character at a time.

use vstd::prelude::*;

use crate::romaji::{
    convert, lemma_step_appends, lemma_step_buffer_waits, lemma_waiting_buffer_replays,
    lowercase_of, romaji_to_kana, step,
};
use crate::text::{chars_of, pop_char, push_char, push_str};

verus! {

/// Abstract state of an input buffer.
pub struct InputView {
    /// Confirmed kana.
    pub output: Seq<char>,
    /// Romaji not resolved yet.
    pub pending: Seq<char>,
}

pub open spec fn empty_input() -> InputView {
    InputView { output: Seq::empty(), pending: Seq::empty() }
}

/// The buffer after `c` is fed: the pending romaji with `c` appended goes
/// through the batch conversion, whose kana joins the output.
pub open spec fn fed(v: InputView, c: char) -> InputView {
    let r = romaji_to_kana(lowercase_of(v.pending.push(c)));
    InputView { output: v.output + r.0, pending: r.1 }
}

/// The buffer after every character of `s` is fed in order.
pub open spec fn fed_all(v: InputView, s: Seq<char>) -> InputView
    decreases s.len(),
{
    if s.len() == 0 {
        v
    } else {
        fed(fed_all(v, s.drop_last()), s.last())
    }
}

/// End of input: a lone pending "n" becomes "ん"; any other pending text is
/// confirmed as it is.
pub open spec fn flushed(v: InputView) -> InputView {
    if v.pending == seq!['n'] {
        InputView { output: v.output.push('ん'), pending: Seq::empty() }
    } else {
        InputView { output: v.output + v.pending, pending: Seq::empty() }
    }
}

/// One character removed: the last pending one if any, else the last confirmed one.
pub open spec fn backspaced(v: InputView) -> InputView {
    if v.pending.len() > 0 {
        InputView { output: v.output, pending: v.pending.drop_last() }
    } else if v.output.len() > 0 {
        InputView { output: v.output.drop_last(), pending: v.pending }
    } else {
        v
    }
}

/// Confirmed kana and pending romaji, accumulated as characters are typed.
#[derive(Debug, Clone)]
pub struct InputState {
    output: String,
    pending: String,
}

impl View for InputState {
    type V = InputView;

    closed spec fn view(&self) -> InputView {
        InputView { output: self.output@, pending: self.pending@ }
    }
}

impl InputState {
    /// An empty buffer.
    pub fn new() -> (r: Self)
        ensures
            r@ == empty_input(),
    {
        InputState { output: String::new(), pending: String::new() }
    }

    /// Feeds one character.
    pub fn feed_char(&mut self, ch: char)
        ensures
            final(self)@ == fed(old(self)@, ch),
    {
        push_char(&mut self.pending, ch);
        let r = convert(self.pending.as_str());
        push_str(&mut self.output, r.output.as_str());
        self.pending = r.pending;
    }

    /// Confirms the pending romaji (a trailing "n" as "ん").
    pub fn flush(&mut self)
        ensures
            final(self)@ == flushed(old(self)@),
    {
        let p = chars_of(self.pending.as_str());
        if p.len() == 1 && p[0] == 'n' {
            assert(self.pending@ =~= seq!['n']);
            push_char(&mut self.output, 'ん');
            self.pending = String::new();
        } else {
            assert(self.pending@ != seq!['n']) by {
                if self.pending@ == seq!['n'] {
                    assert(p@.len() == 1 && p@[0] == 'n');
                }
            }
            push_str(&mut self.output, self.pending.as_str());
            self.pending = String::new();
        }
    }

    /// Removes the last pending character, or the last confirmed one when nothing is pending.
    pub fn backspace(&mut self)
        ensures
            final(self)@ == backspaced(old(self)@),
    {
        if !self.pending.as_str().is_empty() {
            pop_char(&mut self.pending);
        } else {
            pop_char(&mut self.output);
        }
    }

    /// Empties the buffer.
    pub fn reset(&mut self)
        ensures
            final(self)@ == empty_input(),
    {
        self.output = String::new();
        self.pending = String::new();
    }

    /// Whether nothing is confirmed and nothing is pending.
    pub fn is_empty(&self) -> (r: bool)
        ensures
            r == (self@.output.len() == 0 && self@.pending.len() == 0),
    {
        self.output.as_str().is_empty() && self.pending.as_str().is_empty()
    }

    /// The confirmed kana.
    pub fn output(&self) -> (r: &str)
        ensures
            r@ == self@.output,
    {
        self.output.as_str()
    }

    /// The romaji not resolved yet.
    pub fn pending(&self) -> (r: &str)
        ensures
            r@ == self@.pending,
    {
        self.pending.as_str()
    }
}

impl Default for InputState {
    fn default() -> (r: Self)
        ensures
            r@ == empty_input(),
    {
        Self::new()
    }
}

/// The characters of a step's buffer come from the old buffer or the new character.
proof fn lemma_step_buffer_chars(out: Seq<char>, buf: Seq<char>, c: char)
    ensures
        forall|k: int|
            0 <= k < step(out, buf, c).1.len() ==> (#[trigger] step(out, buf, c).1[k] == c
                || buf.contains(step(out, buf, c).1[k])),
{
    let b = step(out, buf, c).1;
    assert forall|k: int| 0 <= k < b.len() implies (#[trigger] b[k] == c || buf.contains(b[k])) by {
        let pushed = buf.push(c);
        if b == pushed.drop_first() {
            assert(b[k] == pushed[k + 1]);
        }
        if b == pushed {
            assert(b[k] == pushed[k]);
        }
        if b[k] != c && b == pushed.drop_first() {
            assert(buf[k + 1] == b[k]);
        }
        if b[k] != c && b == pushed {
            assert(buf[k] == b[k]);
        }
    }
}

/// Feeding a string to an empty input buffer one character at a time leaves the
/// same confirmed kana and pending romaji as converting the whole string at once;
/// flushing then gives one text, which is the batch output itself whenever the
/// batch leaves nothing pending. Stated for strings whose characters
/// lowercasing leaves alone, in whatever combination they come.
pub proof fn lemma_feeding_matches_batch(s: Seq<char>)
    requires
        forall|t: Seq<char>|
            (forall|k: int| 0 <= k < t.len() ==> s.contains(#[trigger] t[k])) ==> #[trigger] lowercase_of(t) == t,
    ensures
        fed_all(empty_input(), s) == (InputView {
            output: romaji_to_kana(lowercase_of(s)).0,
            pending: romaji_to_kana(lowercase_of(s)).1,
        }),
        flushed(fed_all(empty_input(), s)) == flushed(
            InputView { output: romaji_to_kana(lowercase_of(s)).0, pending: romaji_to_kana(lowercase_of(s)).1 },
        ),
        romaji_to_kana(lowercase_of(s)).1.len() == 0 ==> flushed(fed_all(empty_input(), s)).output
            == romaji_to_kana(lowercase_of(s)).0,
{
    assert(lowercase_of(s) == s);
    lemma_feeding_prefix(s, s.len() as int);
    assert(s.subrange(0, s.len() as int) =~= s);
    let v = fed_all(empty_input(), s);
    if v.pending.len() == 0 {
        assert(v.output + v.pending =~= v.output);
    }
}

proof fn lemma_feeding_prefix(s: Seq<char>, n: int)
    requires
        0 <= n <= s.len(),
        forall|t: Seq<char>|
            (forall|k: int| 0 <= k < t.len() ==> s.contains(#[trigger] t[k])) ==> #[trigger] lowercase_of(t) == t,
    ensures
        fed_all(empty_input(), s.subrange(0, n)) == (InputView {
            output: romaji_to_kana(s.subrange(0, n)).0,
            pending: romaji_to_kana(s.subrange(0, n)).1,
        }),
        forall|k: int|
            0 <= k < romaji_to_kana(s.subrange(0, n)).1.len() ==> s.contains(
                #[trigger] romaji_to_kana(s.subrange(0, n)).1[k],
            ),
    decreases n,
{
    let pre = s.subrange(0, n);
    if n == 0 {
        assert(pre.len() == 0);
        assert(empty_input() == (InputView { output: Seq::<char>::empty(), pending: Seq::<char>::empty() }));
        return;
    }
    lemma_feeding_prefix(s, n - 1);
    let prev = s.subrange(0, n - 1);
    assert(pre.drop_last() =~= prev);
    let c = s[n - 1];
    assert(pre.last() == c);
    let o = romaji_to_kana(prev).0;
    let b = romaji_to_kana(prev).1;
    let e = Seq::<char>::empty();
    let bc = b.push(c);
    assert forall|k: int| 0 <= k < bc.len() implies s.contains(#[trigger] bc[k]) by {
        if k < b.len() {
            assert(bc[k] == b[k]);
        } else {
            assert(bc[k] == s[n - 1]);
        }
    }
    assert(lowercase_of(bc) == bc);
    assert(bc.drop_last() =~= b);
    if b.len() == 0 {
        assert(romaji_to_kana(b) == (e, b));
    } else {
        lemma_step_buffer_waits(romaji_to_kana(prev.drop_last()).0, romaji_to_kana(prev.drop_last()).1, prev.last());
        lemma_waiting_buffer_replays(b);
    }
    assert(romaji_to_kana(bc) == step(e, b, c));
    lemma_step_appends(o, b, c);
    lemma_step_buffer_chars(o, b, c);
    let nb = romaji_to_kana(pre).1;
    assert forall|k: int| 0 <= k < nb.len() implies s.contains(#[trigger] nb[k]) by {
        if nb[k] == c {
            assert(s[n - 1] == nb[k]);
        }
    }
}

} // verus!
