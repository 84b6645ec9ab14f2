//! An undo history over any model.
//!
//! Two kinds of edits are recorded. An action (`ActionEdit`) is applied at
//! once and undone by its inverse. A change (`ChangeEdit`) sets a value; while
//! the user is still dragging or typing, successive changes of one kind update
//! a preview, and a commit records the value before the first change and the
//! value after the last one as a single edit.
use vstd::prelude::*;

verus! {

/// A change that sets a part of a model to a value.
pub trait ChangeEdit: Sized + View {
    type Model: View;

    /// The change can be applied to the model without failing.
    spec fn applicable(change: Self::V, model: <Self::Model as View>::V) -> bool;

    /// The model after the change.
    spec fn apply_spec(change: Self::V, model: <Self::Model as View>::V) -> <Self::Model as View>::V;

    /// The change that sets the same parts of the model to the values they
    /// have in `model`.
    spec fn existing_spec(change: Self::V, model: <Self::Model as View>::V) -> Self::V;

    /// The kind of the change: which part of a model it sets.
    spec fn variant(change: Self::V) -> nat;

    fn apply(&self, model: &mut Self::Model)
        requires
            Self::applicable(self@, old(model)@),
        ensures
            final(model)@ == Self::apply_spec(self@, old(model)@),
    ;

    fn existing_value(&self, model: &Self::Model) -> (r: Self)
        requires
            Self::applicable(self@, model@),
        ensures
            r@ == Self::existing_spec(self@, model@),
    ;

    /// A copy of the change.
    fn duplicate(&self) -> (r: Self)
        ensures
            r@ == self@,
    ;

    /// Setting back the values that a change replaced restores the model.
    proof fn lemma_existing_restores(change: Self::V, model: <Self::Model as View>::V)
        requires
            Self::applicable(change, model),
        ensures
            Self::variant(Self::existing_spec(change, model)) == Self::variant(change),
            Self::applicable(Self::existing_spec(change, model), Self::apply_spec(change, model)),
            Self::apply_spec(Self::existing_spec(change, model), Self::apply_spec(change, model))
                == model,
    ;
}

/// An action on a model, undone by its inverse.
pub trait ActionEdit: Sized + View {
    type Model: View;

    /// The action can be applied to the model without failing.
    spec fn applicable(action: Self::V, model: <Self::Model as View>::V) -> bool;

    /// The model after the action.
    spec fn apply_spec(action: Self::V, model: <Self::Model as View>::V) -> <Self::Model as View>::V;

    /// The action has an inverse.
    spec fn invertible(action: Self::V) -> bool;

    spec fn invert_spec(action: Self::V) -> Self::V;

    /// Applied to `model`, the action is undone by its inverse.
    spec fn reversible(action: Self::V, model: <Self::Model as View>::V) -> bool;

    fn apply(&self, model: &mut Self::Model)
        requires
            Self::applicable(self@, old(model)@),
        ensures
            final(model)@ == Self::apply_spec(self@, old(model)@),
    ;

    fn invert(self) -> (r: Self)
        requires
            Self::invertible(self@),
        ensures
            r@ == Self::invert_spec(self@),
    ;

    /// A copy of the action.
    fn duplicate(&self) -> (r: Self)
        ensures
            r@ == self@,
    ;

    /// The inverse of a reversible action undoes it.
    proof fn lemma_inverse_undoes(action: Self::V, model: <Self::Model as View>::V)
        requires
            Self::applicable(action, model),
            Self::reversible(action, model),
        ensures
            Self::invertible(action),
            Self::applicable(Self::invert_spec(action), Self::apply_spec(action, model)),
            Self::apply_spec(Self::invert_spec(action), Self::apply_spec(action, model)) == model,
    ;
}

/// What the user asks of the undo history.
pub enum EditMessage<Change, Action> {
    Action(Action),
    Change(Change),
    Commit,
    Undo,
    Redo,
}

pub enum EditMessageView<CV, AV> {
    Action(AV),
    Change(CV),
    Commit,
    Undo,
    Redo,
}

impl<Change: View, Action: View> View for EditMessage<Change, Action> {
    type V = EditMessageView<Change::V, Action::V>;

    open spec fn view(&self) -> Self::V {
        match self {
            EditMessage::Action(a) => EditMessageView::Action(a@),
            EditMessage::Change(c) => EditMessageView::Change(c@),
            EditMessage::Commit => EditMessageView::Commit,
            EditMessage::Undo => EditMessageView::Undo,
            EditMessage::Redo => EditMessageView::Redo,
        }
    }
}

/// A recorded edit: a change, as the value before and the value after, or
/// an action.
pub enum EditView<CV, AV> {
    Value(CV, CV),
    Action(AV),
}

struct ValueEdit<Change> {
    before: Change,
    after: Change,
}

enum Edit<Change, Action> {
    Value(ValueEdit<Change>),
    Action(Action),
}

impl<Change: View, Action: View> View for Edit<Change, Action> {
    type V = EditView<Change::V, Action::V>;

    closed spec fn view(&self) -> Self::V {
        match self {
            Edit::Value(v) => EditView::Value(v.before@, v.after@),
            Edit::Action(a) => EditView::Action(a@),
        }
    }
}

pub struct UndoStackView<CV, AV> {
    /// the edits that can be undone, the last one first
    pub undo: Seq<EditView<CV, AV>>,
    /// the undone edits that can be redone, the last one first
    pub redo: Seq<EditView<CV, AV>>,
    /// the value before and the value after the changes not yet committed
    pub preview: Option<(CV, CV)>,
}

pub struct UndoStack<Change, Action> {
    undo_stack: Vec<Edit<Change, Action>>,
    redo_stack: Vec<Edit<Change, Action>>,
    preview_edit: Option<ValueEdit<Change>>,
}

impl<Change: View, Action: View> View for UndoStack<Change, Action> {
    type V = UndoStackView<Change::V, Action::V>;

    closed spec fn view(&self) -> Self::V {
        UndoStackView {
            undo: self.undo_stack@.map_values(|e: Edit<Change, Action>| e@),
            redo: self.redo_stack@.map_values(|e: Edit<Change, Action>| e@),
            preview: match self.preview_edit {
                Some(p) => Some((p.before@, p.after@)),
                None => None,
            },
        }
    }
}

impl<Change: ChangeEdit, Action: ActionEdit<Model = Change::Model>> Edit<Change, Action> {
    fn apply(&self, model: &mut Change::Model)
        requires
            UndoStack::<Change, Action>::edit_applicable(self@, old(model)@),
        ensures
            final(model)@ == UndoStack::<Change, Action>::edit_apply(self@, old(model)@),
    {
        match self {
            Edit::Value(value_edit) => value_edit.after.apply(model),
            Edit::Action(action) => action.apply(model),
        }
    }

    fn invert(self) -> (r: Self)
        requires
            self@ matches EditView::Action(a) ==> Action::invertible(a),
        ensures
            r@ == UndoStack::<Change, Action>::edit_invert(self@),
    {
        match self {
            Edit::Value(value_edit) => Edit::Value(
                ValueEdit { before: value_edit.after, after: value_edit.before },
            ),
            Edit::Action(action_edit) => Edit::Action(action_edit.invert()),
        }
    }

    fn duplicate(&self) -> (r: Self)
        ensures
            r@ == self@,
    {
        match self {
            Edit::Value(v) => Edit::Value(
                ValueEdit { before: v.before.duplicate(), after: v.after.duplicate() },
            ),
            Edit::Action(a) => Edit::Action(a.duplicate()),
        }
    }
}

impl<Change: ChangeEdit, Action: ActionEdit<Model = Change::Model>> UndoStack<Change, Action> {
    /// A recorded edit can be applied to the model (when it is redone).
    pub open spec fn edit_applicable(
        e: EditView<Change::V, Action::V>,
        model: <Change::Model as View>::V,
    ) -> bool {
        match e {
            EditView::Value(_, after) => Change::applicable(after, model),
            EditView::Action(a) => Action::applicable(a, model),
        }
    }

    /// The model after a recorded edit is applied.
    pub open spec fn edit_apply(
        e: EditView<Change::V, Action::V>,
        model: <Change::Model as View>::V,
    ) -> <Change::Model as View>::V {
        match e {
            EditView::Value(_, after) => Change::apply_spec(after, model),
            EditView::Action(a) => Action::apply_spec(a, model),
        }
    }

    /// The inverse of a recorded edit.
    pub open spec fn edit_invert(e: EditView<Change::V, Action::V>) -> EditView<
        Change::V,
        Action::V,
    > {
        match e {
            EditView::Value(before, after) => EditView::Value(after, before),
            EditView::Action(a) => EditView::Action(Action::invert_spec(a)),
        }
    }

    /// A recorded edit can be undone on the model.
    pub open spec fn edit_undoable(
        e: EditView<Change::V, Action::V>,
        model: <Change::Model as View>::V,
    ) -> bool {
        match e {
            EditView::Value(before, _) => Change::applicable(before, model),
            EditView::Action(a) => Action::invertible(a) && Action::applicable(
                Action::invert_spec(a),
                model,
            ),
        }
    }

    /// The message can be handled without failing: actions and changes
    /// apply, a change continues a preview of its own kind, and the edit to
    /// undo or redo applies.
    pub open spec fn step_ok(
        s: UndoStackView<Change::V, Action::V>,
        model: <Change::Model as View>::V,
        message: EditMessageView<Change::V, Action::V>,
    ) -> bool {
        match message {
            EditMessageView::Action(a) => Action::applicable(a, model),
            EditMessageView::Change(c) => {
                &&& Change::applicable(c, model)
                &&& s.preview matches Some(p) ==> Change::variant(c) == Change::variant(p.0)
            },
            EditMessageView::Commit => true,
            EditMessageView::Undo => s.undo.len() > 0 ==> Self::edit_undoable(
                s.undo.last(),
                model,
            ),
            EditMessageView::Redo => s.redo.len() > 0 ==> Self::edit_applicable(
                s.redo.last(),
                model,
            ),
        }
    }

    /// The history and the model after a message.
    pub open spec fn step(
        s: UndoStackView<Change::V, Action::V>,
        model: <Change::Model as View>::V,
        message: EditMessageView<Change::V, Action::V>,
    ) -> (UndoStackView<Change::V, Action::V>, <Change::Model as View>::V) {
        match message {
            EditMessageView::Action(a) => (
                UndoStackView { undo: s.undo.push(EditView::Action(a)), redo: Seq::empty(), ..s },
                Action::apply_spec(a, model),
            ),
            EditMessageView::Change(c) => (
                UndoStackView {
                    preview: Some(
                        (
                            match s.preview {
                                Some(p) => p.0,
                                None => Change::existing_spec(c, model),
                            },
                            c,
                        ),
                    ),
                    ..s
                },
                Change::apply_spec(c, model),
            ),
            EditMessageView::Commit => match s.preview {
                Some(p) => (
                    UndoStackView {
                        undo: s.undo.push(EditView::Value(p.0, p.1)),
                        redo: Seq::empty(),
                        preview: None,
                    },
                    model,
                ),
                None => (s, model),
            },
            EditMessageView::Undo => if s.undo.len() == 0 {
                (s, model)
            } else {
                (
                    UndoStackView {
                        undo: s.undo.drop_last(),
                        redo: s.redo.push(s.undo.last()),
                        ..s
                    },
                    Self::edit_apply(Self::edit_invert(s.undo.last()), model),
                )
            },
            EditMessageView::Redo => if s.redo.len() == 0 {
                (s, model)
            } else {
                (
                    UndoStackView {
                        undo: s.undo.push(s.redo.last()),
                        redo: s.redo.drop_last(),
                        ..s
                    },
                    Self::edit_apply(s.redo.last(), model),
                )
            },
        }
    }

    /// Undoing an action restores the model it was applied to, and leaves
    /// the action to be redone.
    pub proof fn lemma_undo_after_action(
        s: UndoStackView<Change::V, Action::V>,
        model: <Change::Model as View>::V,
        action: Action::V,
    )
        requires
            Action::applicable(action, model),
            Action::reversible(action, model),
        ensures
            ({
                let (s1, m1) = Self::step(s, model, EditMessageView::Action(action));
                &&& Self::step_ok(s1, m1, EditMessageView::Undo)
                &&& Self::step(s1, m1, EditMessageView::Undo) == (
                    UndoStackView { undo: s.undo, redo: seq![EditView::Action(action)], ..s },
                    model,
                )
            }),
    {
        Action::lemma_inverse_undoes(action, model);
        let (s1, m1) = Self::step(s, model, EditMessageView::Action(action));
        assert(s1.undo.drop_last() =~= s.undo);
        assert(Seq::<EditView<Change::V, Action::V>>::empty().push(EditView::Action(action))
            =~= seq![EditView::Action(action)]);
    }

    /// Redoing an undone action brings back the model and the history of
    /// right after the action.
    pub proof fn lemma_redo_after_undo(
        s: UndoStackView<Change::V, Action::V>,
        model: <Change::Model as View>::V,
        action: Action::V,
    )
        requires
            Action::applicable(action, model),
            Action::reversible(action, model),
        ensures
            ({
                let (s1, m1) = Self::step(s, model, EditMessageView::Action(action));
                let (s2, m2) = Self::step(s1, m1, EditMessageView::Undo);
                &&& Self::step_ok(s2, m2, EditMessageView::Redo)
                &&& Self::step(s2, m2, EditMessageView::Redo) == (s1, m1)
            }),
    {
        Self::lemma_undo_after_action(s, model, action);
        let (s1, m1) = Self::step(s, model, EditMessageView::Action(action));
        let (s2, m2) = Self::step(s1, m1, EditMessageView::Undo);
        assert(s2.redo.drop_last() =~= s1.redo);
        assert(s2.undo.push(s2.redo.last()) =~= s1.undo);
    }

    /// Undoing a committed change restores the model from before the change.
    pub proof fn lemma_undo_after_commit(
        s: UndoStackView<Change::V, Action::V>,
        model: <Change::Model as View>::V,
        change: Change::V,
    )
        requires
            s.preview is None,
            Change::applicable(change, model),
        ensures
            ({
                let (s1, m1) = Self::step(s, model, EditMessageView::Change(change));
                let (s2, m2) = Self::step(s1, m1, EditMessageView::Commit);
                &&& m2 == Change::apply_spec(change, model)
                &&& s2.preview is None
                &&& Self::step_ok(s2, m2, EditMessageView::Undo)
                &&& Self::step(s2, m2, EditMessageView::Undo).1 == model
                &&& Self::step(s2, m2, EditMessageView::Undo).0 == UndoStackView {
                    undo: s.undo,
                    redo: seq![EditView::Value(Change::existing_spec(change, model), change)],
                    preview: None,
                }
            }),
    {
        Change::lemma_existing_restores(change, model);
        let (s1, m1) = Self::step(s, model, EditMessageView::Change(change));
        let (s2, m2) = Self::step(s1, m1, EditMessageView::Commit);
        assert(s2.undo.drop_last() =~= s.undo);
        assert(Seq::<EditView<Change::V, Action::V>>::empty().push(s2.undo.last())
            =~= seq![EditView::Value(Change::existing_spec(change, model), change)]);
    }

    /// Redoing an edit right after undoing it brings back the history and
    /// the model, when the edit, applied to the model it was undone to,
    /// gives back the model from before the undo.
    pub proof fn lemma_redo_after_undo_edit(
        s: UndoStackView<Change::V, Action::V>,
        model: <Change::Model as View>::V,
    )
        requires
            s.undo.len() > 0,
            ({
                let m1 = Self::step(s, model, EditMessageView::Undo).1;
                &&& Self::edit_applicable(s.undo.last(), m1)
                &&& Self::edit_apply(s.undo.last(), m1) == model
            }),
        ensures
            ({
                let (s1, m1) = Self::step(s, model, EditMessageView::Undo);
                &&& Self::step_ok(s1, m1, EditMessageView::Redo)
                &&& Self::step(s1, m1, EditMessageView::Redo) == (s, model)
            }),
    {
        let (s1, m1) = Self::step(s, model, EditMessageView::Undo);
        assert(s1.redo.last() == s.undo.last());
        assert(s1.undo.push(s1.redo.last()) =~= s.undo);
        assert(s1.redo.drop_last() =~= s.redo);
    }

    /// Inverting a value edit twice gives it back, and its inverse applies
    /// the value from before the edit.
    pub proof fn lemma_value_edit_inverse(
        before: Change::V,
        after: Change::V,
        model: <Change::Model as View>::V,
    )
        ensures
            Self::edit_invert(Self::edit_invert(EditView::Value(before, after))) == EditView::<
                Change::V,
                Action::V,
            >::Value(before, after),
            Self::edit_apply(Self::edit_invert(EditView::Value(before, after)), model)
                == Change::apply_spec(before, model),
    {
    }

    /// Recording a new action or a committed change discards the edits that
    /// could be redone.
    pub proof fn lemma_new_edit_clears_redo(
        s: UndoStackView<Change::V, Action::V>,
        model: <Change::Model as View>::V,
        message: EditMessageView<Change::V, Action::V>,
    )
        requires
            message is Action || (message is Commit && s.preview is Some),
        ensures
            Self::step(s, model, message).0.redo.len() == 0,
            Self::step(s, model, message).0.undo.len() == s.undo.len() + 1,
    {
    }

    pub fn new() -> (r: Self)
        ensures
            r@ == (UndoStackView::<Change::V, Action::V> {
                undo: Seq::empty(),
                redo: Seq::empty(),
                preview: None,
            }),
    {
        let r = UndoStack { undo_stack: Vec::new(), redo_stack: Vec::new(), preview_edit: None };
        assert(r@.undo =~= Seq::<EditView<Change::V, Action::V>>::empty());
        assert(r@.redo =~= Seq::<EditView<Change::V, Action::V>>::empty());
        r
    }

    /// Handles a message: applies an action or a change to the model,
    /// records a committed change, or undoes or redoes the last edit.
    pub fn update(&mut self, model: &mut Change::Model, message: EditMessage<Change, Action>)
        requires
            Self::step_ok(old(self)@, old(model)@, message@),
        ensures
            (final(self)@, final(model)@) == Self::step(old(self)@, old(model)@, message@),
    {
        let ghost s = self@;
        match message {
            EditMessage::Action(action) => {
                action.apply(model);
                self.undo_stack.push(Edit::Action(action));
                self.redo_stack.clear();
                assert(self@.undo =~= s.undo.push(EditView::Action(action@)));
                assert(self@.redo =~= Seq::<EditView<Change::V, Action::V>>::empty());
            },
            EditMessage::Change(change) => {
                let preview = self.preview_edit.take();
                match preview {
                    Some(preview_edit) => {
                        change.apply(model);
                        self.preview_edit = Some(
                            ValueEdit { before: preview_edit.before, after: change },
                        );
                    },
                    None => {
                        let before = change.existing_value(model);
                        change.apply(model);
                        self.preview_edit = Some(ValueEdit { before, after: change });
                    },
                }
            },
            EditMessage::Commit => {
                let preview = self.preview_edit.take();
                match preview {
                    Some(preview_edit) => {
                        self.undo_stack.push(Edit::Value(preview_edit));
                        self.redo_stack.clear();
                        assert(self@.undo =~= s.undo.push(
                            EditView::Value((s.preview->0).0, (s.preview->0).1),
                        ));
                        assert(self@.redo =~= Seq::<EditView<Change::V, Action::V>>::empty());
                    },
                    None => {},
                }
            },
            EditMessage::Undo => {
                match self.undo_stack.pop() {
                    None => {},
                    Some(edit) => {
                        self.redo_stack.push(edit.duplicate());
                        assert(self@.undo =~= s.undo.drop_last());
                        assert(self@.redo =~= s.redo.push(s.undo.last()));
                        edit.invert().apply(model);
                    },
                }
            },
            EditMessage::Redo => {
                match self.redo_stack.pop() {
                    None => {},
                    Some(edit) => {
                        edit.apply(model);
                        self.undo_stack.push(edit);
                        assert(self@.undo =~= s.undo.push(s.redo.last()));
                        assert(self@.redo =~= s.redo.drop_last());
                    },
                }
            },
        }
    }
}

} // verus!
