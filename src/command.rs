use vstd::prelude::*;
use crate::editor::TextEditor;

verus! {

/// `s` with every match of `pat` removed, matches taken from left to right
/// without overlap. An empty pattern matches nothing.
pub open spec fn without_matches(s: Seq<char>, pat: Seq<char>) -> Seq<char>
    decreases s.len(),
{
    if pat.len() == 0 || s.len() < pat.len() {
        s
    } else if s.take(pat.len() as int) == pat {
        without_matches(s.skip(pat.len() as int), pat)
    } else {
        seq![s[0]] + without_matches(s.skip(1), pat)
    }
}

/// The characters of `s`, in order.
fn chars_of(s: &str) -> (r: Vec<char>)
    ensures
        r@ == s@,
{
    broadcast use vstd::string::axiom_spec_iter;
    let mut r: Vec<char> = Vec::new();
    for c in it: s.chars()
        invariant
            r@ == it.seq().take(it.index() as int),
    {
        r.push(c);
    }
    r
}

/// Whether `pat` occurs in `s` starting at position `at`.
fn matches_at(s: &Vec<char>, pat: &Vec<char>, at: usize) -> (r: bool)
    requires
        at + pat@.len() <= s@.len(),
    ensures
        r == (s@.subrange(at as int, at + pat@.len()) == pat@),
{
    let len = s.len();
    let mut j: usize = 0;
    while j < pat.len()
        invariant
            j <= pat@.len(),
            len == s@.len(),
            at + pat@.len() <= s@.len(),
            forall|k: int| 0 <= k < j ==> s@[at + k] == pat@[k],
        decreases pat@.len() - j,
    {
        if s[at + j] != pat[j] {
            assert(s@.subrange(at as int, at + pat@.len())[j as int] != pat@[j as int]);
            return false;
        }
        j = j + 1;
    }
    assert(s@.subrange(at as int, at + pat@.len()) =~= pat@);
    true
}

/// Removes from `s` every match of `pat`, taken from left to right without
/// overlap, as `str::replace(s, pat, "")` does.
pub fn remove_matches(s: &str, pat: &str) -> (r: String)
    ensures
        r@ == without_matches(s@, pat@),
{
    let chars = chars_of(s);
    let pattern = chars_of(pat);
    let n = chars.len();
    let m = pattern.len();
    if m == 0 {
        return String::from_str(s);
    }
    let mut out = String::new();
    let mut start: usize = 0;
    let mut i: usize = 0;
    assert(s@.skip(0) =~= s@);
    assert(out@ + s@.subrange(0, 0) =~= Seq::<char>::empty());
    while i < n && m <= n - i
        invariant
            chars@ == s@,
            pattern@ == pat@,
            n == s@.len(),
            m == pat@.len(),
            m > 0,
            start <= i <= n,
            out@ + s@.subrange(start as int, i as int) + without_matches(s@.skip(i as int), pat@)
                == without_matches(s@, pat@),
        decreases n - i,
    {
        let ghost rest = s@.skip(i as int);
        if matches_at(&chars, &pattern, i) {
            assert(rest.take(m as int) =~= s@.subrange(i as int, i + m));
            assert(rest.skip(m as int) =~= s@.skip(i + m));
            let piece = s.substring_char(start, i);
            out.append(piece);
            i = i + m;
            start = i;
            assert(s@.subrange(start as int, i as int) =~= Seq::<char>::empty());
        } else {
            assert(rest.take(m as int) =~= s@.subrange(i as int, i + m));
            assert(rest.skip(1) =~= s@.skip(i + 1));
            assert(s@.subrange(start as int, i + 1) =~= s@.subrange(start as int, i as int)
                + seq![s@[i as int]]);
            i = i + 1;
        }
    }
    assert(s@.subrange(start as int, i as int) + s@.skip(i as int) =~= s@.subrange(
        start as int,
        n as int,
    ));
    let tail = s.substring_char(start, n);
    out.append(tail);
    out
}

/// Why a command could not be rolled back.
#[derive(Debug, Clone, Copy, PartialEq, Eq, Structural)]
pub enum EditError {
    /// The content is shorter than the text that the command is meant to
    /// take off its end: it was changed by something other than the command.
    InvariantViolation,
}

/// A reversible change to a `TextEditor`.
pub trait Command {
    /// The content after `execute` on content `text`.
    spec fn applied(&self, text: Seq<char>) -> Seq<char>;

    /// Whether `rollback` succeeds on content `text`.
    spec fn invertible(&self, text: Seq<char>) -> bool;

    /// The content after a successful `rollback` on content `text`.
    spec fn inverted(&self, text: Seq<char>) -> Seq<char>;

    /// Applies the change.
    fn execute(&self, editor: &mut TextEditor)
        ensures
            final(editor)@ == self.applied(old(editor)@),
    ;

    /// Applies the inverse change; on failure the content is left as it was.
    fn rollback(&self, editor: &mut TextEditor) -> (r: Result<(), EditError>)
        ensures
            r is Ok <==> self.invertible(old(editor)@),
            r is Ok ==> final(editor)@ == self.inverted(old(editor)@),
            r is Err ==> final(editor)@ == old(editor)@ && r == Err::<(), EditError>(
                EditError::InvariantViolation,
            ),
    ;
}

/// Appends its text; rolled back by taking as many characters off the end.
pub struct AddTextCommand {
    text: String,
}

impl View for AddTextCommand {
    type V = Seq<char>;

    closed spec fn view(&self) -> Seq<char> {
        self.text@
    }
}

impl AddTextCommand {
    pub fn new(text: String) -> (r: AddTextCommand)
        ensures
            r@ == text@,
    {
        AddTextCommand { text }
    }
}

impl Command for AddTextCommand {
    open spec fn applied(&self, text: Seq<char>) -> Seq<char> {
        text + self@
    }

    open spec fn invertible(&self, text: Seq<char>) -> bool {
        self@.len() <= text.len()
    }

    open spec fn inverted(&self, text: Seq<char>) -> Seq<char> {
        text.take(text.len() - self@.len())
    }

    fn execute(&self, editor: &mut TextEditor) {
        editor.append(self.text.as_str());
    }

    fn rollback(&self, editor: &mut TextEditor) -> (r: Result<(), EditError>) {
        let have = editor.get_text().as_str().unicode_len();
        let added = self.text.as_str().unicode_len();
        if have < added {
            return Err(EditError::InvariantViolation);
        }
        let kept = String::from_str(editor.get_text().as_str().substring_char(0, have - added));
        editor.set_text(kept);
        Ok(())
    }
}

/// Removes every match of its text; rolled back by appending the text once.
/// The rollback restores the content only where the text occurred once, at
/// the end: it does not put removed text back where it stood.
pub struct DeleteTextCommand {
    text: String,
}

impl View for DeleteTextCommand {
    type V = Seq<char>;

    closed spec fn view(&self) -> Seq<char> {
        self.text@
    }
}

impl DeleteTextCommand {
    pub fn new(text: String) -> (r: DeleteTextCommand)
        ensures
            r@ == text@,
    {
        DeleteTextCommand { text }
    }
}

impl Command for DeleteTextCommand {
    open spec fn applied(&self, text: Seq<char>) -> Seq<char> {
        without_matches(text, self@)
    }

    open spec fn invertible(&self, text: Seq<char>) -> bool {
        true
    }

    open spec fn inverted(&self, text: Seq<char>) -> Seq<char> {
        text + self@
    }

    fn execute(&self, editor: &mut TextEditor) {
        let rest = remove_matches(editor.get_text().as_str(), self.text.as_str());
        editor.set_text(rest);
    }

    fn rollback(&self, editor: &mut TextEditor) -> (r: Result<(), EditError>) {
        editor.append(self.text.as_str());
        Ok(())
    }
}

/// The commands that a `CommandHistory` runs and keeps.
pub enum EditCommand {
    Add(AddTextCommand),
    Delete(DeleteTextCommand),
}

impl Command for EditCommand {
    open spec fn applied(&self, text: Seq<char>) -> Seq<char> {
        match self {
            EditCommand::Add(c) => c.applied(text),
            EditCommand::Delete(c) => c.applied(text),
        }
    }

    open spec fn invertible(&self, text: Seq<char>) -> bool {
        match self {
            EditCommand::Add(c) => c.invertible(text),
            EditCommand::Delete(c) => c.invertible(text),
        }
    }

    open spec fn inverted(&self, text: Seq<char>) -> Seq<char> {
        match self {
            EditCommand::Add(c) => c.inverted(text),
            EditCommand::Delete(c) => c.inverted(text),
        }
    }

    fn execute(&self, editor: &mut TextEditor) {
        match self {
            EditCommand::Add(c) => c.execute(editor),
            EditCommand::Delete(c) => c.execute(editor),
        }
    }

    fn rollback(&self, editor: &mut TextEditor) -> (r: Result<(), EditError>) {
        match self {
            EditCommand::Add(c) => c.rollback(editor),
            EditCommand::Delete(c) => c.rollback(editor),
        }
    }
}

} // verus!
