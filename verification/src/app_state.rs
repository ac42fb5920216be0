//! What the IDE remembers between sessions about its open buffers, and how
//! the editor is rebuilt from it.
use vstd::prelude::*;
use vstd::string::StringExecFns;
use crate::code_editor::{Buffer, CodeEditor, CursorPosition, opt_str};

verus! {

/// A remembered buffer: its file (empty for an unnamed one) and its cursor.
pub struct BufferState {
    pub file_path: String,
    pub cursor_position: CursorPosition,
}

/// A buffer's file path, or the empty text.
pub open spec fn path_or_empty(p: Option<String>) -> Seq<char> {
    match p {
        Some(s) => s@,
        None => Seq::empty(),
    }
}

/// What the editor's buffers are remembered as, in order.
pub fn buffer_states(editor: &CodeEditor) -> (r: Vec<BufferState>)
    ensures
        r@.len() == editor.buffers@.len(),
        forall|k: int|
            0 <= k < r@.len() ==> (#[trigger] r@[k]).file_path@ == path_or_empty(editor.buffers@[k].file_path)
                && r@[k].cursor_position == editor.buffers@[k].cursor_position,
{
    let mut r: Vec<BufferState> = Vec::new();
    let mut i: usize = 0;
    while i < editor.buffers.len()
        invariant
            i <= editor.buffers@.len(),
            r@.len() == i,
            forall|k: int|
                0 <= k < i ==> (#[trigger] r@[k]).file_path@ == path_or_empty(editor.buffers@[k].file_path)
                    && r@[k].cursor_position == editor.buffers@[k].cursor_position,
        decreases editor.buffers@.len() - i,
    {
        let b = &editor.buffers[i];
        let path = match &b.file_path {
            Some(p) => p.clone(),
            None => String::new(),
        };
        r.push(BufferState { file_path: path, cursor_position: b.cursor_position });
        i = i + 1;
    }
    r
}

/// The buffers rebuilt from remembered states, where `contents[k]` is the
/// text read for state `k` (none when its file is gone or unreadable, and
/// then no buffer is made for it).
pub open spec fn restored_buffers(states: Seq<BufferState>, contents: Seq<Option<String>>) -> Seq<(Seq<char>, Seq<char>, CursorPosition)>
    decreases states.len(),
{
    if states.len() == 0 || contents.len() == 0 {
        Seq::empty()
    } else {
        restored_buffers(states.drop_last(), contents.drop_last()) + match contents.last() {
            Some(c) => seq![(states.last().file_path@, c@, states.last().cursor_position)],
            None => Seq::empty(),
        }
    }
}

/// The buffers appended to `editor` in restoring, as (file, text, cursor).
pub open spec fn buffers_view(bs: Seq<Buffer>) -> Seq<(Seq<char>, Seq<char>, CursorPosition)> {
    Seq::new(bs.len(), |i: int| (path_or_empty(bs[i].file_path), bs[i].content@, bs[i].cursor_position))
}

/// Rebuilds the editor's buffers from remembered states and the texts read
/// for them: each readable one becomes an unmodified plain-text buffer with
/// its file, text and cursor, after the buffers already there. The active
/// index is the remembered one, or none when there is no buffer.
pub fn restore_buffers(
    editor: &mut CodeEditor,
    states: &Vec<BufferState>,
    contents: Vec<Option<String>>,
    active: Option<usize>,
)
    requires
        contents@.len() == states@.len(),
    ensures
        final(editor).buffers@.subrange(0, old(editor).buffers@.len() as int) == old(editor).buffers@,
        buffers_view(final(editor).buffers@.subrange(old(editor).buffers@.len() as int, final(editor).buffers@.len() as int))
            == restored_buffers(states@, contents@),
        forall|k: int|
            old(editor).buffers@.len() <= k < final(editor).buffers@.len() ==> {
                &&& (#[trigger] final(editor).buffers@[k]).file_path.is_some()
                &&& !final(editor).buffers@[k].is_modified
                &&& final(editor).buffers@[k].syntax@ == Buffer::plain_text()
            },
        final(editor).active_buffer_index == if final(editor).buffers@.len() == 0 {
            None
        } else {
            active
        },
{
    let base = editor.buffers.len();
    let mut i: usize = 0;
    while i < states.len()
        invariant
            contents@.len() == states@.len(),
            i <= states@.len(),
            base == old(editor).buffers@.len(),
            base <= editor.buffers@.len(),
            editor.buffers@.subrange(0, base as int) == old(editor).buffers@,
            buffers_view(editor.buffers@.subrange(base as int, editor.buffers@.len() as int))
                == restored_buffers(states@.take(i as int), contents@.take(i as int)),
            forall|k: int|
                base <= k < editor.buffers@.len() ==> {
                    &&& (#[trigger] editor.buffers@[k]).file_path.is_some()
                    &&& !editor.buffers@[k].is_modified
                    &&& editor.buffers@[k].syntax@ == Buffer::plain_text()
                },
        decreases states@.len() - i,
    {
        assert(states@.take(i + 1).drop_last() =~= states@.take(i as int));
        assert(contents@.take(i + 1).drop_last() =~= contents@.take(i as int));
        let ghost before = editor.buffers@;
        match &contents[i] {
            Some(c) => {
                let mut b = Buffer::new();
                b.file_path = Some(states[i].file_path.clone());
                b.content = c.clone();
                b.cursor_position = states[i].cursor_position;
                editor.buffers.push(b);
                assert(editor.buffers@.subrange(0, base as int) =~= before.subrange(0, base as int));
                assert(editor.buffers@.subrange(base as int, editor.buffers@.len() as int)
                    =~= before.subrange(base as int, before.len() as int).push(editor.buffers@.last()));
                assert(buffers_view(editor.buffers@.subrange(base as int, editor.buffers@.len() as int))
                    =~= buffers_view(before.subrange(base as int, before.len() as int)).push(
                        (states@[i as int].file_path@, c@, states@[i as int].cursor_position),
                    ));
            },
            None => {},
        }
        i = i + 1;
        assert(buffers_view(editor.buffers@.subrange(base as int, editor.buffers@.len() as int))
            =~= restored_buffers(states@.take(i as int), contents@.take(i as int)));
    }
    assert(states@.take(states@.len() as int) =~= states@);
    assert(contents@.take(contents@.len() as int) =~= contents@);
    editor.active_buffer_index = if editor.buffers.len() == 0 {
        None
    } else {
        active
    };
}

} // verus!
