use std::any::TypeId;
use std::marker::PhantomData;
use vstd::prelude::*;

use crate::frame::first_of_kind;
use crate::frame::is_fresh;
use crate::frame::nodes;
use crate::frame::ContextValue;
use crate::frame::Error;
use crate::frame::Frame;
use crate::frame::texts_of;
use crate::location::Location;
use crate::view::ExnView;
use crate::view::ExnViewMut;
use crate::view::Visitor;
use crate::view::VisitorMut;
use crate::report::compact_report;
use crate::report::compact_string;
use crate::report::DisplayExn;
use crate::report::indented_report;
use crate::report::indented_string;

verus! {

/// An error tree whose root holds an error of type `E`, with an optional recovery
/// value of type `R` handed back to the caller beside the tree.
pub struct Exn<E, R = ()> {
    frame: Frame,
    recovery: R,
    marker: PhantomData<E>,
}

impl<E, R> View for Exn<E, R> {
    type V = Frame;

    /// The root frame of the tree.
    closed spec fn view(&self) -> Frame {
        self.frame
    }
}

/// The root frames of a sequence of trees.
pub open spec fn roots_of<T, R>(s: Seq<Exn<T, R>>) -> Seq<Frame> {
    s.map_values(|x: Exn<T, R>| x@)
}

/// `g` is `f` with one more context entry at the end, and nothing else changed.
pub open spec fn is_attached(g: Frame, f: Frame) -> bool {
    &&& g.error == f.error
    &&& g.location == f.location
    &&& g.children == f.children
    &&& g.contexts@.len() == f.contexts@.len() + 1
    &&& g.contexts@.subrange(0, f.contexts@.len() as int) == f.contexts@
}

/// `g` is `f` with `other` appended at the end of its children, and nothing else changed.
pub open spec fn is_suppressed(g: Frame, f: Frame, other: Frame) -> bool {
    &&& g.error == f.error
    &&& g.location == f.location
    &&& g.contexts == f.contexts
    &&& g.children@ == f.children@.push(other)
}

/// The display texts along the chain of first children from `f` down.
pub open spec fn first_child_chain(f: Frame) -> Seq<Seq<char>>
    decreases f,
{
    if f.children@.len() > 0 {
        seq![f.error.text@] + first_child_chain(f.children@[0])
    } else {
        seq![f.error.text@]
    }
}

impl<E, R> Exn<E, R> {
    /// The recovery value carried beside the tree.
    pub closed spec fn recovery_value(&self) -> R {
        self.recovery
    }

    fn from_frame(frame: Frame, recovery: R) -> (r: Exn<E, R>)
        ensures
            r@ == frame,
            r.recovery_value() == recovery,
    {
        Exn { frame, recovery, marker: PhantomData }
    }

    fn into_parts(self) -> (r: (Frame, R))
        ensures
            r.0 == self@,
            r.1 == self.recovery_value(),
    {
        let Exn { frame, recovery, marker } = self;
        (frame, recovery)
    }

    /// The root frame, dropping the handle and any recovery value.
    pub fn into_frame(self) -> (r: Frame)
        ensures
            r == self@,
    {
        let (frame, _recovery) = self.into_parts();
        frame
    }

    /// Builds a tree for `error` raised at `at`, carrying `recovery` for the caller.
    ///
    /// The native cause chain of `error` becomes a chain of frames below the root, each
    /// holding only the cause's display text.
    pub fn with_recovery(error: E, recovery: R, at: Location) -> (r: Exn<E, R>)
        where
            E: Error,
        ensures
            is_fresh(r@, error.text(), error.cause_texts(), at@, Seq::empty()),
            r.recovery_value() == recovery,
    {
        let frame = Frame::build(error, at, Vec::new());
        Exn::from_frame(frame, recovery)
    }

    /// Drops the recovery value, keeping the tree.
    pub fn discard_recovery(self) -> (r: Exn<E>)
        ensures
            r@ == self@,
    {
        let (frame, _recovery) = self.into_parts();
        Exn::from_frame(frame, ())
    }

    /// Hands back the recovery value together with the tree.
    pub fn recover(self) -> (r: (R, Exn<E>))
        ensures
            r.0 == self.recovery_value(),
            r.1@ == self@,
    {
        let (frame, recovery) = self.into_parts();
        (recovery, Exn::from_frame(frame, ()))
    }

    /// Attaches `context` to the root frame, after the context it already has.
    pub fn attach<C: Send + Sync + 'static>(self, context: C) -> (r: Self)
        ensures
            is_attached(r@, self@),
            r.recovery_value() == self.recovery_value(),
    {
        let mut this = self;
        this.context(context);
        this
    }

    /// Attaches `context` to the root frame in place, after the context it already has.
    pub fn context<C: Send + Sync + 'static>(&mut self, context: C)
        ensures
            is_attached(final(self)@, old(self)@),
            final(self).recovery_value() == old(self).recovery_value(),
    {
        let ghost before = self.frame;
        self.frame.contexts.push(ContextValue::of(context));
        assert(self.frame.contexts@.subrange(0, before.contexts@.len() as int) =~= before.contexts@);
    }

    /// Appends the tree `other` as the last child of the root frame: an error that also
    /// happened, beside the causes already there.
    pub fn suppress(&mut self, other: Exn<E>)
        ensures
            is_suppressed(final(self)@, old(self)@, other@),
            final(self).recovery_value() == old(self).recovery_value(),
    {
        let (extra, _unit) = other.into_parts();
        self.frame.children.push(extra);
    }

    /// Raises `error` at `at` over this tree: the new root's first child is this tree's
    /// root, followed by the native cause chain of `error`.
    pub fn raise<T: Error>(self, error: T, at: Location) -> (r: Exn<T>)
        ensures
            is_fresh(r@, error.text(), error.cause_texts(), at@, seq![self@]),
            r@.children@[0] == self@,
            error.cause_texts().len() == 0 ==> r@.children@ == seq![self@],
    {
        self.raise_with_recovery(error, (), at)
    }

    /// Raises `error` at `at` over this tree, carrying `recovery` for the caller.
    pub fn raise_with_recovery<T: Error, S>(self, error: T, recovery: S, at: Location) -> (r: Exn<T, S>)
        ensures
            is_fresh(r@, error.text(), error.cause_texts(), at@, seq![self@]),
            r@.children@[0] == self@,
            error.cause_texts().len() == 0 ==> r@.children@ == seq![self@],
            r.recovery_value() == recovery,
    {
        let (root, _recovery) = self.into_parts();
        let lead = vec![root];
        assert(lead@ =~= seq![root]);
        let frame = Frame::build(error, at, lead);
        proof {
            if error.cause_texts().len() == 0 {
                let k = frame.children@.len();
                assert(frame.children@.subrange(1, k as int).len() == 0);
                assert(frame.children@ =~= frame.children@.subrange(0, 1));
            }
        }
        Exn::from_frame(frame, recovery)
    }

    /// The root frame.
    pub fn frame(&self) -> (r: &Frame)
        ensures
            *r == self@,
    {
        &self.frame
    }

    /// The error at the root, as its own type.
    ///
    /// The root of an `Exn<E>` is built from an `E`, so this is `Some` whenever it runs;
    /// the cast is std's, and no contract can name the identifier of `E`, so that is not
    /// stated here.
    pub fn error(&self) -> (r: Option<&E>)
        where
            E: 'static,
    {
        self.frame().error.value.downcast_ref::<E>()
    }

    /// The first frame, in depth-first pre-order from the root, whose payload has type
    /// identifier `kind`.
    pub fn find_frame(&self, kind: &TypeId) -> (r: Option<&Frame>)
        ensures
            match r {
                Some(x) => first_of_kind(nodes(self@), *kind) == Some(*x),
                None => first_of_kind(nodes(self@), *kind) is None,
            },
    {
        self.frame().find_frame(kind)
    }

    /// The first payload of type `T`, in depth-first pre-order from the root.
    ///
    /// The search is `find_frame` on the identifier of `T`, whose result is stated
    /// there; that this identifier is `T`'s, and the final cast, are std's and are not
    /// stated here.
    pub fn find_payload<T: 'static>(&self) -> (r: Option<&T>) {
        self.frame().find_payload::<T>()
    }

    /// Hands the visitor a view of the root frame.
    pub fn visit<V: Visitor>(&self, visitor: &mut V)
        ensures
            final(visitor).visited(*old(visitor), self@),
    {
        visitor.visit_exn(ExnView::new(&self.frame));
    }

    /// Hands the visitor a view of the root frame through which payloads and context
    /// entries may be changed.
    pub fn visit_mut<V: VisitorMut>(&mut self, visitor: &mut V)
        ensures
            final(visitor).visited_mut(*old(visitor), old(self)@),
    {
        visitor.visit_exn_mut(ExnViewMut::new(&mut self.frame));
    }

    /// The display texts along the chain of first children, from the root down.
    pub fn first_child_texts(&self) -> (r: Vec<String>)
        ensures
            texts_of(r@) == first_child_chain(self@),
    {
        let mut out: Vec<String> = Vec::new();
        let mut node = &self.frame;
        let ghost done: Seq<Seq<char>> = Seq::empty();
        out.push(node.error.text.clone());
        assert(texts_of(out@) =~= done + seq![node.error.text@]);
        while node.children.len() > 0
            invariant
                texts_of(out@) == done + seq![node.error.text@],
                done + first_child_chain(*node) == first_child_chain(self@),
            decreases node,
        {
            proof {
                done = done + seq![node.error.text@];
                assert(first_child_chain(*node) =~= seq![node.error.text@] + first_child_chain(node.children@[0]));
            }
            node = &node.children[0];
            out.push(node.error.text.clone());
            assert(texts_of(out@) =~= done + seq![node.error.text@]);
        }
        assert(first_child_chain(*node) =~= seq![node.error.text@]);
        out
    }

    /// The display text of the root error alone.
    pub fn to_display_string(&self) -> (r: String)
        ensures
            r@ == self@.error.text@,
    {
        self.frame().error.text.clone()
    }

    /// The tree, to be reported as an outline.
    pub fn display(self) -> (r: DisplayExn<E>)
        ensures
            r.tree() == self@,
    {
        DisplayExn::new(self.discard_recovery())
    }

    /// The whole tree in the indented form.
    pub fn to_debug_string(&self) -> (r: String)
        ensures
            r@ == indented_report(self@),
    {
        indented_string(self.frame())
    }

    /// The whole tree in the compact form.
    pub fn to_compact_string(&self) -> (r: String)
        ensures
            r@ == compact_report(self@),
    {
        compact_string(self.frame())
    }
}

impl<E: Error> Exn<E> {
    /// Builds a tree for `error` raised at `at`.
    ///
    /// The native cause chain of `error` becomes a chain of frames below the root, each
    /// holding only the cause's display text.
    pub fn new(error: E, at: Location) -> (r: Exn<E>)
        ensures
            is_fresh(r@, error.text(), error.cause_texts(), at@, Seq::empty()),
    {
        Exn::with_recovery(error, (), at)
    }

    /// Builds a tree for `error` raised at `at` over the trees `children`, which become
    /// the root's first children in their order, before the native cause chain.
    pub fn raise_all<T>(error: E, children: Vec<Exn<T>>, at: Location) -> (r: Exn<E>)
        ensures
            is_fresh(r@, error.text(), error.cause_texts(), at@, roots_of(children@)),
            error.cause_texts().len() == 0 ==> r@.children@ == roots_of(children@),
    {
        Exn::raise_all_with_recovery(error, children, (), at)
    }

    /// Like `raise_all`, carrying `recovery` for the caller.
    pub fn raise_all_with_recovery<T, S>(error: E, children: Vec<Exn<T>>, recovery: S, at: Location) -> (r: Exn<E, S>)
        ensures
            is_fresh(r@, error.text(), error.cause_texts(), at@, roots_of(children@)),
            error.cause_texts().len() == 0 ==> r@.children@ == roots_of(children@),
            r.recovery_value() == recovery,
    {
        let ghost all = children@;
        let mut rest = children;
        let mut lead: Vec<Frame> = Vec::new();
        while rest.len() > 0
            invariant
                all.len() == lead@.len() + rest@.len(),
                rest@ == all.subrange(lead@.len() as int, all.len() as int),
                lead@ == roots_of(all.subrange(0, lead@.len() as int)),
            decreases rest.len(),
        {
            let ghost k = lead@.len() as int;
            let exn = rest.remove(0);
            let (root, _unit) = exn.into_parts();
            lead.push(root);
            assert(rest@ =~= all.subrange(k + 1, all.len() as int));
            assert(lead@ =~= roots_of(all.subrange(0, k + 1)));
        }
        assert(all.subrange(0, all.len() as int) =~= all);
        let frame = Frame::build(error, at, lead);
        proof {
            if error.cause_texts().len() == 0 {
                let k = frame.children@.len();
                assert(frame.children@ =~= frame.children@.subrange(0, all.len() as int));
            }
        }
        Exn::from_frame(frame, recovery)
    }
}

} // verus!
