use vstd::prelude::*;

verus! {

/// A text buffer. Its content is changed only by commands run through a
/// `CommandHistory` (or by a command's own `execute` / `rollback`).
pub struct TextEditor {
    pub(crate) text: String,
}

impl View for TextEditor {
    type V = Seq<char>;

    closed spec fn view(&self) -> Seq<char> {
        self.text@
    }
}

impl TextEditor {
    /// An editor with empty content.
    pub fn new() -> (r: TextEditor)
        ensures
            r@ == Seq::<char>::empty(),
    {
        TextEditor { text: String::new() }
    }

    /// The current content, borrowed.
    pub fn get_text(&self) -> (r: &String)
        ensures
            r@ == self@,
    {
        &self.text
    }

    /// Appends `s` to the content.
    pub(crate) fn append(&mut self, s: &str)
        ensures
            final(self)@ == old(self)@ + s@,
    {
        self.text.append(s);
    }

    /// Replaces the whole content by `s`.
    pub(crate) fn set_text(&mut self, s: String)
        ensures
            final(self)@ == s@,
    {
        self.text = s;
    }
}

/// Reading the content twice, with no command run in between, gives the same
/// text both times: what `get_text` returns is fixed by the editor alone.
pub proof fn lemma_get_text_stable(editor: &TextEditor, first: &String, second: &String)
    requires
        first@ == editor@,
        second@ == editor@,
    ensures
        first@ == second@,
{
}

} // verus!
