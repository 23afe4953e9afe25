use vstd::prelude::*;
use crate::command::{AddTextCommand, Command, DeleteTextCommand, EditCommand, EditError, without_matches};
use crate::editor::TextEditor;

verus! {

/// The commands run so far, oldest first; `undo` rolls back the most recent.
pub struct CommandHistory {
    commands: Vec<EditCommand>,
}

impl View for CommandHistory {
    type V = Seq<EditCommand>;

    closed spec fn view(&self) -> Seq<EditCommand> {
        self.commands@
    }
}

impl CommandHistory {
    /// An empty history.
    pub fn new() -> (r: CommandHistory)
        ensures
            r@ == Seq::<EditCommand>::empty(),
    {
        CommandHistory { commands: Vec::new() }
    }

    /// Runs `command` on `editor` and keeps it as the most recent command.
    pub fn execute_command(&mut self, command: EditCommand, editor: &mut TextEditor)
        ensures
            final(editor)@ == command.applied(old(editor)@),
            final(self)@ == old(self)@.push(command),
    {
        command.execute(editor);
        self.commands.push(command);
    }

    /// The most recent command, if any.
    pub fn last(&self) -> (r: Option<&EditCommand>)
        ensures
            self@.len() == 0 ==> r is None,
            self@.len() > 0 ==> r == Some(&self@.last()),
    {
        let n = self.commands.len();
        if n == 0 {
            None
        } else {
            Some(&self.commands[n - 1])
        }
    }

    /// Drops the most recent command from the history and rolls it back; the
    /// command is gone for good, whether or not its rollback succeeds. With no
    /// command kept, nothing changes. Where the rollback fails, the editor
    /// stays as it was.
    pub fn undo(&mut self, editor: &mut TextEditor) -> (r: Result<(), EditError>)
        ensures
            old(self)@.len() == 0 ==> r is Ok && final(self)@ == old(self)@ && final(editor)@
                == old(editor)@,
            old(self)@.len() > 0 ==> final(self)@ == old(self)@.drop_last() && (r is Ok
                <==> old(self)@.last().invertible(old(editor)@)),
            old(self)@.len() > 0 && r is Ok ==> final(editor)@ == old(self)@.last().inverted(
                old(editor)@,
            ),
            r is Err ==> final(editor)@ == old(editor)@ && r == Err::<(), EditError>(
                EditError::InvariantViolation,
            ),
    {
        match self.commands.pop() {
            None => Ok(()),
            Some(command) => command.rollback(editor),
        }
    }
}

/// The content after running `cmds`, oldest first, on content `text`.
pub open spec fn replay(cmds: Seq<EditCommand>, text: Seq<char>) -> Seq<char>
    decreases cmds.len(),
{
    if cmds.len() == 0 {
        text
    } else {
        cmds.last().applied(replay(cmds.drop_last(), text))
    }
}

/// The content after undoing every command of `cmds`, most recent first,
/// starting from content `text`; `None` where a rollback fails.
pub open spec fn unwind(cmds: Seq<EditCommand>, text: Seq<char>) -> Option<Seq<char>>
    decreases cmds.len(),
{
    if cmds.len() == 0 {
        Some(text)
    } else if cmds.last().invertible(text) {
        unwind(cmds.drop_last(), cmds.last().inverted(text))
    } else {
        None
    }
}

/// Whether rolling back a command right after running it on content `text`
/// gives `text` back.
pub open spec fn undoes<C: Command>(c: C, text: Seq<char>) -> bool {
    c.invertible(c.applied(text)) && c.inverted(c.applied(text)) == text
}

/// Whether each command of `cmds`, run in order from content `text`, is
/// undone by its own rollback on the content that it produced.
pub open spec fn each_undoes(cmds: Seq<EditCommand>, text: Seq<char>) -> bool
    decreases cmds.len(),
{
    cmds.len() == 0 || (each_undoes(cmds.drop_last(), text) && undoes(
        cmds.last(),
        replay(cmds.drop_last(), text),
    ))
}

/// Running a sequence of commands and then undoing as many brings the content
/// back to what it was, wherever each command's rollback undoes it.
pub proof fn lemma_undo_all_restores(cmds: Seq<EditCommand>, text: Seq<char>)
    requires
        each_undoes(cmds, text),
    ensures
        unwind(cmds, replay(cmds, text)) == Some(text),
    decreases cmds.len(),
{
    if cmds.len() > 0 {
        lemma_undo_all_restores(cmds.drop_last(), text);
    }
}

/// An append is always undone by its rollback.
pub proof fn lemma_append_undone(c: AddTextCommand, text: Seq<char>)
    ensures
        undoes(c, text),
{
    assert((text + c@).take(text.len() as int) =~= text);
}

/// A sequence of appends, then as many undos, always brings the content back.
pub proof fn lemma_appends_undone(cmds: Seq<EditCommand>, text: Seq<char>)
    requires
        forall|i: int| 0 <= i < cmds.len() ==> cmds[i] is Add,
    ensures
        each_undoes(cmds, text),
        unwind(cmds, replay(cmds, text)) == Some(text),
    decreases cmds.len(),
{
    if cmds.len() > 0 {
        let prefix = cmds.drop_last();
        assert forall|i: int| 0 <= i < prefix.len() implies prefix[i] is Add by {
            assert(prefix[i] == cmds[i]);
        }
        lemma_appends_undone(prefix, text);
        let before = replay(prefix, text);
        let c = cmds[cmds.len() - 1];
        match c {
            EditCommand::Add(a) => lemma_append_undone(a, before),
            EditCommand::Delete(_) => {},
        }
    }
    lemma_undo_all_restores(cmds, text);
}

/// A deletion is undone by its rollback exactly where removing every match
/// and appending the text once gives the content back.
pub proof fn lemma_delete_undone_iff(c: DeleteTextCommand, text: Seq<char>)
    ensures
        undoes(c, text) <==> without_matches(text, c@) + c@ == text,
{
}

/// Deleting a text that stands twice in a row and rolling back leaves one
/// copy: removed matches do not all come back.
pub proof fn lemma_delete_twice_leaves_one(c: DeleteTextCommand)
    requires
        c@.len() > 0,
    ensures
        c.inverted(c.applied(c@ + c@)) == c@,
        !undoes(c, c@ + c@),
{
    let p = c@;
    let s = p + p;
    assert(s.take(p.len() as int) =~= p);
    assert(s.skip(p.len() as int) =~= p);
    assert(p.take(p.len() as int) =~= p);
    assert(p.skip(p.len() as int) =~= Seq::<char>::empty());
    assert(without_matches(Seq::<char>::empty(), p) == Seq::<char>::empty());
    assert(without_matches(p, p) == Seq::<char>::empty());
    assert(without_matches(s, p) == without_matches(p, p));
    assert(Seq::<char>::empty() + p =~= p);
    assert(s.len() != p.len());
}

} // verus!
