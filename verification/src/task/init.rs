//! The interactive shell: line editing and command parsing.
use vstd::prelude::*;
use crate::utils::string_from_chars;

verus! {

/// Whether `c` is ASCII whitespace: space, tab, line feed, form feed or
/// carriage return (the separators of `str::split_ascii_whitespace`).
pub open spec fn is_ascii_whitespace(c: char) -> bool {
    c == ' ' || c == '\t' || c == '\n' || c == '\x0C' || c == '\r'
}

/// The words of `s[i..]`, given that the word being read so far is `cur`:
/// maximal runs of non-whitespace characters, in order.
pub open spec fn words_from(s: Seq<char>, i: int, cur: Seq<char>) -> Seq<Seq<char>>
    decreases s.len() - i,
{
    if i >= s.len() {
        if cur.len() > 0 { seq![cur] } else { seq![] }
    } else if is_ascii_whitespace(s[i]) {
        (if cur.len() > 0 { seq![cur] } else { seq![] }) + words_from(s, i + 1, seq![])
    } else {
        words_from(s, i + 1, cur.push(s[i]))
    }
}

/// The words of `s`, as `str::split_ascii_whitespace` yields them.
pub open spec fn words(s: Seq<char>) -> Seq<Seq<char>> {
    words_from(s, 0, seq![])
}

/// Every word is a non-empty run of characters none of which is whitespace.
pub proof fn lemma_words_are_clean(s: Seq<char>)
    ensures
        forall|k: int|
            0 <= k < words(s).len() ==> #[trigger] words(s)[k].len() > 0 && forall|j: int|
                0 <= j < words(s)[k].len() ==> !is_ascii_whitespace(words(s)[k][j]),
{
    lemma_words_from_clean(s, 0, seq![]);
}

proof fn lemma_words_from_clean(s: Seq<char>, i: int, cur: Seq<char>)
    requires
        0 <= i,
        forall|j: int| 0 <= j < cur.len() ==> !is_ascii_whitespace(cur[j]),
    ensures
        forall|k: int|
            0 <= k < words_from(s, i, cur).len() ==> #[trigger] words_from(s, i, cur)[k].len() > 0
                && forall|j: int|
                0 <= j < words_from(s, i, cur)[k].len() ==> !is_ascii_whitespace(
                    words_from(s, i, cur)[k][j],
                ),
    decreases s.len() - i,
{
    if i >= s.len() {
        let w = words_from(s, i, cur);
        assert forall|k: int| 0 <= k < w.len() implies #[trigger] w[k].len() > 0 && forall|j: int|
            0 <= j < w[k].len() ==> !is_ascii_whitespace(w[k][j]) by {
            assert(w[k] == cur);
        }
    } else if is_ascii_whitespace(s[i]) {
        lemma_words_from_clean(s, i + 1, seq![]);
        let emitted: Seq<Seq<char>> = if cur.len() > 0 { seq![cur] } else { seq![] };
        let rest = words_from(s, i + 1, seq![]);
        assert(words_from(s, i, cur) == emitted + rest);
        assert forall|k: int| 0 <= k < (emitted + rest).len() implies #[trigger] (emitted
            + rest)[k].len() > 0 && forall|j: int|
            0 <= j < (emitted + rest)[k].len() ==> !is_ascii_whitespace((emitted + rest)[k][j]) by {
            if k < emitted.len() {
                assert((emitted + rest)[k] == cur);
            } else {
                assert((emitted + rest)[k] == rest[k - emitted.len()]);
            }
        }
    } else {
        let next = cur.push(s[i]);
        assert forall|j: int| 0 <= j < next.len() implies !is_ascii_whitespace(next[j]) by {
            if j < cur.len() {
                assert(next[j] == cur[j]);
            }
        }
        lemma_words_from_clean(s, i + 1, next);
        assert(words_from(s, i, cur) == words_from(s, i + 1, next));
    }
}

/// Splitting keeps every character but the separators: the words, put back
/// together, are the line with its space, tab, line feed, form feed and
/// carriage return characters removed.
pub proof fn lemma_words_keep_every_other_character(s: Seq<char>)
    ensures
        words(s).flatten() == s.filter(
            |c: char| !(c == ' ' || c == '\t' || c == '\n' || c == '\x0C' || c == '\r'),
        ),
{
    lemma_words_from_flatten(s, 0, seq![]);
    assert(s.subrange(0, s.len() as int) =~= s);
    assert(Seq::<char>::empty() + s.filter(
        |c: char| !(c == ' ' || c == '\t' || c == '\n' || c == '\x0C' || c == '\r'),
    ) =~= s.filter(|c: char| !(c == ' ' || c == '\t' || c == '\n' || c == '\x0C' || c == '\r')));
}

proof fn lemma_words_from_flatten(s: Seq<char>, i: int, cur: Seq<char>)
    requires
        0 <= i <= s.len(),
    ensures
        words_from(s, i, cur).flatten() == cur + s.subrange(i, s.len() as int).filter(
            |c: char| !(c == ' ' || c == '\t' || c == '\n' || c == '\x0C' || c == '\r'),
        ),
    decreases s.len() - i,
{
    let keep = |c: char| !(c == ' ' || c == '\t' || c == '\n' || c == '\x0C' || c == '\r');
    broadcast use vstd::seq_lib::group_seq_properties;
    if i == s.len() {
        assert(s.subrange(i, s.len() as int) =~= Seq::<char>::empty());
        assert(Seq::<char>::empty().filter(keep) =~= Seq::<char>::empty()) by {
            reveal(Seq::filter);
        }
        if cur.len() > 0 {
            assert(seq![cur].flatten() =~= cur) by {
                seq![cur].lemma_flatten_one_element();
            }
        } else {
            assert(Seq::<Seq<char>>::empty().flatten() =~= Seq::<char>::empty());
        }
        assert(cur + Seq::<char>::empty() =~= cur);
    } else {
        let rest = s.subrange(i + 1, s.len() as int);
        assert(s.subrange(i, s.len() as int) =~= seq![s[i]] + rest);
        rest.lemma_filter_prepend(s[i], keep);
        if is_ascii_whitespace(s[i]) {
            lemma_words_from_flatten(s, i + 1, seq![]);
            let emitted: Seq<Seq<char>> = if cur.len() > 0 { seq![cur] } else { seq![] };
            vstd::seq_lib::lemma_flatten_concat(emitted, words_from(s, i + 1, seq![]));
            if cur.len() > 0 {
                seq![cur].lemma_flatten_one_element();
            }
            assert(emitted.flatten() =~= cur);
            assert(Seq::<char>::empty() + rest.filter(keep) =~= rest.filter(keep));
        } else {
            lemma_words_from_flatten(s, i + 1, cur.push(s[i]));
            assert(cur.push(s[i]) + rest.filter(keep) =~= cur + (seq![s[i]] + rest.filter(keep)));
        }
    }
}

/// Whether `w` stands in `s` as a run of characters that starts at the start
/// of `s` or after a space, tab, line feed, form feed or carriage return, and
/// ends at the end of `s` or before one of them.
pub open spec fn stands_as_whole_run(s: Seq<char>, w: Seq<char>) -> bool {
    exists|start: int|
        0 <= start && start + w.len() <= s.len() && #[trigger] s.subrange(start, start + w.len())
            == w && (start == 0 || (s[start - 1] == ' ' || s[start - 1] == '\t' || s[start - 1]
            == '\n' || s[start - 1] == '\x0C' || s[start - 1] == '\r')) && (start + w.len()
            == s.len() || (s[start + w.len()] == ' ' || s[start + w.len()] == '\t' || s[start
            + w.len()] == '\n' || s[start + w.len()] == '\x0C' || s[start + w.len()] == '\r'))
}

/// Only separators split: every word stands in the line as a whole run,
/// bounded by separators or the ends of the line.
pub proof fn lemma_words_are_whole_runs(s: Seq<char>)
    ensures
        forall|k: int|
            0 <= k < words(s).len() ==> stands_as_whole_run(s, #[trigger] words(s)[k]),
{
    assert(Seq::<char>::empty() =~= s.subrange(0, 0));
    lemma_words_from_whole_runs(s, 0, seq![]);
    assert forall|k: int| 0 <= k < words(s).len() implies stands_as_whole_run(
        s,
        #[trigger] words(s)[k],
    ) by {
        let w = words(s)[k];
        assert(whole_run(s, w));
        let start = choose|start: int|
            0 <= start && start + w.len() <= s.len() && #[trigger] s.subrange(start, start + w.len())
                == w && (start == 0 || is_ascii_whitespace(s[start - 1])) && (start + w.len()
                == s.len() || is_ascii_whitespace(s[start + w.len()]));
        assert(s.subrange(start, start + w.len()) == w);
    }
}

/// Whether `w` stands in `s` as a run bounded by separators or the ends.
spec fn whole_run(s: Seq<char>, w: Seq<char>) -> bool {
    exists|start: int|
        0 <= start && start + w.len() <= s.len() && #[trigger] s.subrange(start, start + w.len())
            == w && (start == 0 || is_ascii_whitespace(s[start - 1])) && (start + w.len() == s.len()
            || is_ascii_whitespace(s[start + w.len()]))
}

proof fn lemma_words_from_whole_runs(s: Seq<char>, i: int, cur: Seq<char>)
    requires
        0 <= cur.len() <= i <= s.len(),
        cur == s.subrange(i - cur.len(), i),
        i - cur.len() == 0 || is_ascii_whitespace(s[i - cur.len() - 1]),
    ensures
        forall|k: int|
            0 <= k < words_from(s, i, cur).len() ==> whole_run(s, #[trigger] words_from(s, i, cur)[k]),
    decreases s.len() - i,
{
    let st = i - cur.len();
    if i == s.len() {
        if cur.len() > 0 {
            assert(whole_run(s, cur)) by {
                assert(s.subrange(st, st + cur.len()) == cur);
            }
        }
        assert forall|k: int|
            0 <= k < words_from(s, i, cur).len() implies whole_run(s, #[trigger] words_from(s, i, cur)[k]) by {
            assert(words_from(s, i, cur)[k] == cur);
        }
    } else if is_ascii_whitespace(s[i]) {
        assert(Seq::<char>::empty() =~= s.subrange(i + 1, i + 1));
        lemma_words_from_whole_runs(s, i + 1, seq![]);
        let emitted: Seq<Seq<char>> = if cur.len() > 0 { seq![cur] } else { seq![] };
        let rest = words_from(s, i + 1, seq![]);
        assert(words_from(s, i, cur) == emitted + rest);
        if cur.len() > 0 {
            assert(whole_run(s, cur)) by {
                assert(s.subrange(st, st + cur.len()) == cur);
            }
        }
        assert forall|k: int|
            0 <= k < words_from(s, i, cur).len() implies whole_run(s, #[trigger] words_from(s, i, cur)[k]) by {
            if k < emitted.len() {
                assert(words_from(s, i, cur)[k] == cur);
            } else {
                assert(words_from(s, i, cur)[k] == rest[k - emitted.len()]);
            }
        }
    } else {
        assert(cur.push(s[i]) =~= s.subrange(st, i + 1));
        assert(i + 1 - cur.push(s[i]).len() == st);
        lemma_words_from_whole_runs(s, i + 1, cur.push(s[i]));
        assert(words_from(s, i, cur) == words_from(s, i + 1, cur.push(s[i])));
    }
}

/// Splits a line into its words.
pub fn split_words(line: &[char]) -> (r: Vec<Vec<char>>)
    ensures
        r@.len() == words(line@).len(),
        forall|k: int| 0 <= k < r@.len() ==> #[trigger] r@[k]@ == words(line@)[k],
{
    let ghost s = line@;
    let mut found: Vec<Vec<char>> = Vec::new();
    let ghost mut seen: Seq<Seq<char>> = seq![];
    let mut cur: Vec<char> = Vec::new();
    let mut i: usize = 0;
    while i < line.len()
        invariant
            s == line@,
            i <= line.len(),
            found@.len() == seen.len(),
            forall|k: int| 0 <= k < found@.len() ==> #[trigger] found@[k]@ == seen[k],
            seen + words_from(s, i as int, cur@) == words(s),
        decreases line.len() - i,
    {
        let c = line[i];
        if c == ' ' || c == '\t' || c == '\n' || c == '\x0C' || c == '\r' {
            let ghost emitted: Seq<Seq<char>> = if cur@.len() > 0 { seq![cur@] } else { seq![] };
            let ghost old_seen = seen;
            let ghost rest = words_from(s, i + 1, seq![]);
            assert(words_from(s, i as int, cur@) == emitted + rest);
            if cur.len() > 0 {
                proof {
                    seen = seen.push(cur@);
                }
                found.push(cur);
                cur = Vec::new();
            }
            assert(seen =~= old_seen + emitted);
            assert(cur@ =~= Seq::<char>::empty());
            assert(old_seen + (emitted + rest) =~= (old_seen + emitted) + rest);
        } else {
            assert(words_from(s, i as int, cur@) == words_from(s, i + 1, cur@.push(c)));
            cur.push(c);
        }
        i = i + 1;
    }
    if cur.len() > 0 {
        proof {
            seen = seen.push(cur@);
        }
        found.push(cur);
    }
    assert(seen =~= words(s));
    found
}

/// The first word of a command line, or the empty word when there is none.
pub open spec fn command_label(line: Seq<char>) -> Seq<char> {
    if words(line).len() > 0 {
        words(line)[0]
    } else {
        seq![]
    }
}

/// The word that lists the firmware files.
pub open spec fn list_word() -> Seq<char> {
    seq!['l', 's']
}

/// The word that prints a firmware file.
pub open spec fn cat_word() -> Seq<char> {
    seq!['c', 'a', 't']
}

/// The word that powers the machine off.
pub open spec fn shutdown_word() -> Seq<char> {
    seq!['s', 'h', 'u', 't', 'd', 'o', 'w', 'n']
}

/// The file that `cat` prints when no file is named.
pub open spec fn default_cat_file() -> Seq<char> {
    seq!['o', 'p', 't', '/', 't', 'e', 's', 't']
}

/// The file that a `cat` line names: its second word, or the default file.
pub open spec fn cat_target(line: Seq<char>) -> Seq<char> {
    if words(line).len() > 1 {
        words(line)[1]
    } else {
        default_cat_file()
    }
}

/// A command of the shell.
#[derive(Debug)]
pub enum Command {
    /// `ls`: list the firmware configuration files.
    List,
    /// `cat [file]`: print a firmware configuration file.
    Cat(String),
    /// `shutdown`: leave the emulator.
    Shutdown,
    /// Any other line, which is reported as not found.
    Unknown(String),
}

/// Whether a word equals the given characters.
fn word_is(w: &Vec<char>, lit: &[char]) -> (r: bool)
    ensures
        r == (w@ == lit@),
{
    if w.len() != lit.len() {
        return false;
    }
    let mut i: usize = 0;
    while i < w.len()
        invariant
            w@.len() == lit@.len(),
            i <= w.len(),
            forall|k: int| 0 <= k < i ==> w@[k] == lit@[k],
        decreases w.len() - i,
    {
        if w[i] != lit[i] {
            return false;
        }
        i = i + 1;
    }
    assert(w@ =~= lit@);
    true
}

/// Reads a command line: its first word selects the command.
pub fn parse_command(line: &[char]) -> (r: Command)
    ensures
        r is List <==> command_label(line@) == list_word(),
        r is Cat <==> command_label(line@) == cat_word(),
        r is Shutdown <==> command_label(line@) == shutdown_word(),
        r matches Command::Cat(f) ==> f@ == cat_target(line@),
        r matches Command::Unknown(l) ==> l@ == line@,
{
    let ws = split_words(line);
    let empty: Vec<char> = Vec::new();
    let label: &Vec<char> = if ws.len() > 0 { &ws[0] } else { &empty };
    assert(label@ == command_label(line@));
    let ls: [char; 2] = ['l', 's'];
    let cat: [char; 3] = ['c', 'a', 't'];
    let shutdown: [char; 8] = ['s', 'h', 'u', 't', 'd', 'o', 'w', 'n'];
    assert(ls@ == list_word());
    assert(cat@ == cat_word());
    assert(shutdown@ == shutdown_word());
    if word_is(label, &ls) {
        Command::List
    } else if word_is(label, &cat) {
        if ws.len() > 1 {
            Command::Cat(string_from_chars(ws[1].as_slice()))
        } else {
            let default_file: [char; 8] = ['o', 'p', 't', '/', 't', 'e', 's', 't'];
            assert(default_file@ == default_cat_file());
            Command::Cat(string_from_chars(&default_file))
        }
    } else if word_is(label, &shutdown) {
        Command::Shutdown
    } else {
        Command::Unknown(string_from_chars(line))
    }
}

/// What the shell does with one key typed at the prompt.
#[derive(Debug)]
pub enum LineInput {
    /// Show the character; it became part of the line being typed.
    Echo(char),
    /// The line is complete (a newline was typed): these are its characters.
    Submit(Vec<char>),
}

/// The line being typed at the shell prompt.
pub struct CommandLine {
    buffer: Vec<char>,
}

impl View for CommandLine {
    type V = Seq<char>;

    closed spec fn view(&self) -> Seq<char> {
        self.buffer@
    }
}

impl CommandLine {
    /// An empty line.
    pub fn new() -> (r: Self)
        ensures
            r@ == Seq::<char>::empty(),
    {
        CommandLine { buffer: Vec::new() }
    }

    /// Takes one key: a newline submits the line typed so far and starts a
    /// new one; any other key is appended to the line and echoed.
    pub fn feed(&mut self, key: char) -> (r: LineInput)
        ensures
            key == '\n' ==> final(self)@ == Seq::<char>::empty(),
            key == '\n' ==> (r matches LineInput::Submit(l) && l@ == old(self)@),
            key != '\n' ==> final(self)@ == old(self)@.push(key),
            key != '\n' ==> (r matches LineInput::Echo(c) && c == key),
    {
        if key == '\n' {
            let mut line: Vec<char> = Vec::new();
            core::mem::swap(&mut line, &mut self.buffer);
            LineInput::Submit(line)
        } else {
            self.buffer.push(key);
            LineInput::Echo(key)
        }
    }
}

} // verus!
