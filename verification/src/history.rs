//! The undo history: what was done to a document and what was undone.

use vstd::prelude::*;
use crate::canvas::{CanvasData, CanvasView};
use crate::edit::{Edit, EditKind};

verus! {

/// One entry of the history: an edit, its kind, and a document. For an
/// entry that can be undone the document is the one before the edit; for
/// one that can be redone it is the one after.
pub struct Record {
    edit: Edit,
    kind: EditKind,
    saved: CanvasData,
}

/// What an entry of the history holds.
pub struct RecordView {
    pub edit: Edit,
    pub kind: EditKind,
    pub saved: CanvasView,
}

/// The edits made to a document, the last on top, and the edits undone, the
/// last on top.
pub struct UndoHistory {
    done: Vec<Record>,
    undone: Vec<Record>,
}

/// What a history holds: the entries that can be undone and those that can
/// be redone, each with its last entry on top.
#[verifier::ext_equal]
pub struct HistoryView {
    pub done: Seq<RecordView>,
    pub undone: Seq<RecordView>,
}

impl View for Record {
    type V = RecordView;

    closed spec fn view(&self) -> RecordView {
        RecordView { edit: self.edit, kind: self.kind, saved: self.saved@ }
    }
}

impl View for UndoHistory {
    type V = HistoryView;

    closed spec fn view(&self) -> HistoryView {
        HistoryView {
            done: Seq::new(self.done@.len(), |i: int| self.done@[i]@),
            undone: Seq::new(self.undone@.len(), |i: int| self.undone@[i]@),
        }
    }
}

impl HistoryView {
    /// Whether an edit of kind `kind` is folded into the entry on top: both
    /// are mergeable, and the edit continues the gesture of the one on top.
    pub open spec fn merges(self, edit: Edit, kind: EditKind) -> bool {
        &&& kind == EditKind::Mergeable
        &&& self.done.len() > 0
        &&& self.done.last().kind == EditKind::Mergeable
        &&& self.done.last().edit.spec_mergeable_with(&edit)
    }

    /// The history and the document after `do_edit`.
    ///
    /// An edit that cannot be applied changes nothing. One that is applied
    /// empties `undone`; it takes the place of the entry on top where it is
    /// folded into that one, which keeps the document from before the
    /// gesture, and else becomes a new entry on top.
    pub open spec fn spec_do_edit(self, canvas: CanvasView, edit: Edit, kind: EditKind) -> (
        HistoryView,
        CanvasView,
    ) {
        if !edit.applies(canvas) {
            (self, canvas)
        } else if self.merges(edit, kind) {
            (
                HistoryView {
                    done: self.done.drop_last().push(
                        RecordView { edit, kind, saved: self.done.last().saved },
                    ),
                    undone: Seq::empty(),
                },
                edit.applied_to(canvas),
            )
        } else {
            (
                HistoryView {
                    done: self.done.push(RecordView { edit, kind, saved: canvas }),
                    undone: Seq::empty(),
                },
                edit.applied_to(canvas),
            )
        }
    }

    /// The history and the document after `do_undo`: the entry on top of
    /// `done` moves to `undone`, the document becomes the one from before
    /// that edit, and the entry keeps the document from after it. Nothing
    /// changes where `done` is empty.
    pub open spec fn spec_do_undo(self, canvas: CanvasView) -> (HistoryView, CanvasView) {
        if self.done.len() == 0 {
            (self, canvas)
        } else {
            let top = self.done.last();
            (
                HistoryView {
                    done: self.done.drop_last(),
                    undone: self.undone.push(RecordView { saved: canvas, ..top }),
                },
                top.saved,
            )
        }
    }

    /// The history and the document after `do_redo`: the entry on top of
    /// `undone` moves back to `done`, the document becomes the one from
    /// after that edit, and the entry keeps the document from before it.
    /// Nothing changes where `undone` is empty.
    pub open spec fn spec_do_redo(self, canvas: CanvasView) -> (HistoryView, CanvasView) {
        if self.undone.len() == 0 {
            (self, canvas)
        } else {
            let top = self.undone.last();
            (
                HistoryView {
                    done: self.done.push(RecordView { saved: canvas, ..top }),
                    undone: self.undone.drop_last(),
                },
                top.saved,
            )
        }
    }
}

impl HistoryView {
    /// The history and the document after one `do_edit` for each of
    /// `edits` in turn, all of kind `kind`.
    pub open spec fn spec_do_edits(self, canvas: CanvasView, edits: Seq<Edit>, kind: EditKind) -> (
        HistoryView,
        CanvasView,
    )
        decreases edits.len(),
    {
        if edits.len() == 0 {
            (self, canvas)
        } else {
            let before = self.spec_do_edits(canvas, edits.drop_last(), kind);
            before.0.spec_do_edit(before.1, edits.last(), kind)
        }
    }

    /// Whether each of `edits` can be applied when its turn comes.
    pub open spec fn all_apply(self, canvas: CanvasView, edits: Seq<Edit>, kind: EditKind) -> bool
        decreases edits.len(),
    {
        edits.len() == 0 || {
            let before = self.spec_do_edits(canvas, edits.drop_last(), kind);
            self.all_apply(canvas, edits.drop_last(), kind) && edits.last().applies(before.1)
        }
    }
}

/// Whether all of `edits` belong to one gesture: each continues each.
pub open spec fn one_family(edits: Seq<Edit>) -> bool {
    forall|i: int, j: int|
        #![trigger edits[i], edits[j]]
        0 <= i < edits.len() && 0 <= j < edits.len() ==> edits[i].spec_mergeable_with(&edits[j])
}

/// Undo after an edit: where an edit was applied and became an entry of its
/// own, taking it back gives the document from before it, and leaves of
/// `done` what was there before.
pub proof fn lemma_undo_restores(
    history: HistoryView,
    canvas: CanvasView,
    edit: Edit,
    kind: EditKind,
)
    requires
        edit.applies(canvas),
        !history.merges(edit, kind),
    ensures
        ({
            let edited = history.spec_do_edit(canvas, edit, kind);
            let back = edited.0.spec_do_undo(edited.1);
            back.1 == canvas && back.0.done == history.done
        }),
{
    let edited = history.spec_do_edit(canvas, edit, kind);
    let back = edited.0.spec_do_undo(edited.1);
    assert(back.0.done =~= history.done);
}

/// Undo after a folded edit: where an edit was applied and took the place of
/// the entry on top, taking it back gives the document from before the
/// whole gesture.
pub proof fn lemma_undo_restores_gesture(
    history: HistoryView,
    canvas: CanvasView,
    edit: Edit,
    kind: EditKind,
)
    requires
        edit.applies(canvas),
        history.merges(edit, kind),
    ensures
        ({
            let edited = history.spec_do_edit(canvas, edit, kind);
            let back = edited.0.spec_do_undo(edited.1);
            back.1 == history.done.last().saved && back.0.done == history.done.drop_last()
        }),
{
    let edited = history.spec_do_edit(canvas, edit, kind);
    let back = edited.0.spec_do_undo(edited.1);
    assert(back.0.done =~= history.done.drop_last());
}

/// Redo after undo: taking back an edit and making it again changes neither
/// the document nor the history.
pub proof fn lemma_redo_after_undo(history: HistoryView, canvas: CanvasView)
    requires
        history.done.len() > 0,
    ensures
        ({
            let back = history.spec_do_undo(canvas);
            back.0.spec_do_redo(back.1) == (history, canvas)
        }),
{
    let back = history.spec_do_undo(canvas);
    let again = back.0.spec_do_redo(back.1);
    assert(again.0.done =~= history.done);
    assert(again.0.undone =~= history.undone);
}

/// Redo after undo after an edit: where an edit was applied, taking it back
/// and making it again gives the document and the history from just after
/// the edit.
pub proof fn lemma_redo_restores(
    history: HistoryView,
    canvas: CanvasView,
    edit: Edit,
    kind: EditKind,
)
    requires
        edit.applies(canvas),
    ensures
        ({
            let edited = history.spec_do_edit(canvas, edit, kind);
            let back = edited.0.spec_do_undo(edited.1);
            back.0.spec_do_redo(back.1) == edited
        }),
{
    let edited = history.spec_do_edit(canvas, edit, kind);
    lemma_redo_after_undo(edited.0, edited.1);
}

/// Redo makes the edit again: where an edit was applied and became an
/// entry of its own, taking it back and making it again gives what the
/// edit gives of the document that undo brought back.
pub proof fn lemma_redo_applies_edit_again(
    history: HistoryView,
    canvas: CanvasView,
    edit: Edit,
    kind: EditKind,
)
    requires
        edit.applies(canvas),
        !history.merges(edit, kind),
    ensures
        ({
            let edited = history.spec_do_edit(canvas, edit, kind);
            let back = edited.0.spec_do_undo(edited.1);
            back.0.spec_do_redo(back.1).1 == edit.applied_to(back.1)
        }),
{
}

/// An edit ends redo: after an edit was applied nothing can be redone, so
/// `do_redo` changes nothing, however many edits were taken back before.
pub proof fn lemma_edit_clears_redo(
    history: HistoryView,
    canvas: CanvasView,
    edit: Edit,
    kind: EditKind,
)
    requires
        edit.applies(canvas),
    ensures
        ({
            let edited = history.spec_do_edit(canvas, edit, kind);
            edited.0.undone.len() == 0 && edited.0.spec_do_redo(edited.1) == edited
        }),
{
}

/// A gesture is one entry: mergeable edits of one family, each applied, add
/// one entry to `done`, however many they are, where the first of them
/// starts a gesture. The entry holds the last of them.
pub proof fn lemma_gesture_is_one_entry(history: HistoryView, canvas: CanvasView, edits: Seq<Edit>)
    requires
        edits.len() > 0,
        one_family(edits),
        history.all_apply(canvas, edits, EditKind::Mergeable),
        !history.merges(edits[0], EditKind::Mergeable),
    ensures
        ({
            let after = history.spec_do_edits(canvas, edits, EditKind::Mergeable).0;
            &&& after.done.len() == history.done.len() + 1
            &&& after.done.last().edit == edits.last()
            &&& after.done.last().kind == EditKind::Mergeable
        }),
    decreases edits.len(),
{
    let rest = edits.drop_last();
    if rest.len() > 0 {
        assert(rest[0] == edits[0]);
        assert forall|i: int, j: int|
            #![trigger rest[i], rest[j]]
            0 <= i < rest.len() && 0 <= j < rest.len() implies rest[i].spec_mergeable_with(
            &rest[j],
        ) by {
            assert(rest[i] == edits[i] && rest[j] == edits[j]);
        }
        lemma_gesture_is_one_entry(history, canvas, rest);
        let before = history.spec_do_edits(canvas, rest, EditKind::Mergeable);
        assert(before.0.done.last().edit == edits[edits.len() - 2]);
        assert(edits[edits.len() - 2].spec_mergeable_with(&edits[edits.len() - 1]));
    } else {
        assert(edits.last() == edits[0]);
    }
}

/// Edits that stand for themselves are one entry each: non-mergeable
/// edits, each applied, add as many entries to `done` as they are.
pub proof fn lemma_separate_edits_are_separate_entries(
    history: HistoryView,
    canvas: CanvasView,
    edits: Seq<Edit>,
)
    requires
        history.all_apply(canvas, edits, EditKind::NonMergeable),
    ensures
        history.spec_do_edits(canvas, edits, EditKind::NonMergeable).0.done.len()
            == history.done.len() + edits.len(),
    decreases edits.len(),
{
    if edits.len() > 0 {
        lemma_separate_edits_are_separate_entries(history, canvas, edits.drop_last());
    }
}

impl UndoHistory {
    /// A history of nothing.
    pub fn new() -> (history: UndoHistory)
        ensures
            history@ == (HistoryView { done: Seq::empty(), undone: Seq::empty() }),
    {
        let history = UndoHistory { done: Vec::new(), undone: Vec::new() };
        assert(history@ =~= (HistoryView { done: Seq::empty(), undone: Seq::empty() }));
        history
    }

    /// The number of edits that can be undone.
    pub fn undo_depth(&self) -> (n: usize)
        ensures
            n == self@.done.len(),
    {
        self.done.len()
    }

    /// The number of edits that can be redone.
    pub fn redo_depth(&self) -> (n: usize)
        ensures
            n == self@.undone.len(),
    {
        self.undone.len()
    }

    fn merges(&self, edit: &Edit, kind: EditKind) -> (b: bool)
        ensures
            b == self@.merges(*edit, kind),
    {
        let n = self.done.len();
        if n == 0 {
            return false;
        }
        match (kind, self.done[n - 1].kind) {
            (EditKind::Mergeable, EditKind::Mergeable) => self.done[n - 1].edit.mergeable_with(
                edit,
            ),
            _ => false,
        }
    }

    /// Applies `edit` to `canvas` and records it, and says whether it was
    /// applied. An edit that cannot be applied leaves the document and the
    /// history as they were.
    pub fn do_edit(&mut self, canvas: &mut CanvasData, edit: Edit, kind: EditKind) -> (applied:
        bool)
        ensures
            applied == edit.applies(old(canvas)@),
            (final(self)@, final(canvas)@) == old(self)@.spec_do_edit(old(canvas)@, edit, kind),
    {
        if self.merges(&edit, kind) {
            if !edit.apply(canvas) {
                return false;
            }
            let top = self.done.pop().unwrap();
            self.done.push(Record { edit, kind, saved: top.saved });
        } else {
            let saved = canvas.duplicate();
            if !edit.apply(canvas) {
                return false;
            }
            self.done.push(Record { edit, kind, saved });
        }
        self.undone.clear();
        assert(self@ =~= old(self)@.spec_do_edit(old(canvas)@, edit, kind).0);
        true
    }

    /// Takes back the last edit that was made and returns its description;
    /// does nothing and returns `None` where no edit is left to take back.
    pub fn do_undo(&mut self, canvas: &mut CanvasData) -> (description: Option<String>)
        ensures
            (final(self)@, final(canvas)@) == old(self)@.spec_do_undo(old(canvas)@),
            description is Some <==> old(self)@.done.len() > 0,
            description matches Some(text) ==> text@ == old(self)@.done.last().edit.spec_description(),
    {
        match self.done.pop() {
            None => None,
            Some(mut record) => {
                core::mem::swap(canvas, &mut record.saved);
                let text = record.edit.description();
                self.undone.push(record);
                assert(self@ =~= old(self)@.spec_do_undo(old(canvas)@).0);
                Some(text)
            },
        }
    }

    /// Makes the last edit that was taken back again and returns its
    /// description; does nothing and returns `None` where no edit was taken
    /// back since the last one was made.
    pub fn do_redo(&mut self, canvas: &mut CanvasData) -> (description: Option<String>)
        ensures
            (final(self)@, final(canvas)@) == old(self)@.spec_do_redo(old(canvas)@),
            description is Some <==> old(self)@.undone.len() > 0,
            description matches Some(text) ==> text@ == old(self)@.undone.last().edit.spec_description(),
    {
        match self.undone.pop() {
            None => None,
            Some(mut record) => {
                core::mem::swap(canvas, &mut record.saved);
                let text = record.edit.description();
                self.done.push(record);
                assert(self@ =~= old(self)@.spec_do_redo(old(canvas)@).0);
                Some(text)
            },
        }
    }
}

} // verus!
