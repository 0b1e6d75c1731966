use std::any::TypeId;
use vstd::prelude::*;

use crate::erased::same_type;
use crate::erased::type_id_of;
use crate::erased::ErasedValue;
use crate::frame::ContextValue;
use crate::frame::ErrorValue;
use crate::frame::Frame;
use crate::location::Location;

verus! {

/// A consumer of an error tree. The tree hands the visitor a view of a node; the
/// visitor decides whether, and in what order, to go on to the node's context and
/// children through the view.
pub trait Visitor: Sized {
    /// The visitor went from `before` to `self` by visiting the node `node`.
    spec fn visited(&self, before: Self, node: Frame) -> bool;

    /// The visitor went from `before` to `self` by visiting the context entry `context`.
    spec fn visited_context(&self, before: Self, context: ContextValue) -> bool;

    /// Visits a node of the tree.
    fn visit_exn(&mut self, exn: ExnView<'_>)
        ensures
            final(self).visited(*old(self), exn.node()),
    ;

    /// Visits a context entry of a node.
    fn visit_context(&mut self, context: ContextView<'_>)
        ensures
            final(self).visited_context(*old(self), context.value()),
    ;
}

/// A consumer of an error tree that may change the payloads and context entries it
/// is shown.
pub trait VisitorMut: Sized {
    /// The visitor went from `before` to `self` by visiting the node that was `node`
    /// when it was handed over.
    spec fn visited_mut(&self, before: Self, node: Frame) -> bool;

    /// The visitor went from `before` to `self` by visiting the context entry that was
    /// `context` when it was handed over.
    spec fn visited_context_mut(&self, before: Self, context: ContextValue) -> bool;

    /// Visits a node of the tree.
    fn visit_exn_mut(&mut self, exn: ExnViewMut<'_>)
        ensures
            final(self).visited_mut(*old(self), exn.node()),
    ;

    /// Visits a context entry of a node.
    fn visit_context_mut(&mut self, context: ContextViewMut<'_>)
        ensures
            final(self).visited_context_mut(*old(self), context.value()),
    ;
}

/// One step of a walk over `nodes`: from `states[i]` the visitor reaches
/// `states[i + 1]` by visiting `nodes[i]`.
pub open spec fn node_step<V: Visitor>(states: Seq<V>, nodes: Seq<Frame>, i: int) -> bool {
    states[i + 1].visited(states[i], nodes[i])
}

/// The visitor went from `before` to `after` by visiting `nodes`, one after another.
pub open spec fn visited_each<V: Visitor>(before: V, after: V, nodes: Seq<Frame>) -> bool {
    exists|states: Seq<V>| {
        &&& states.len() == nodes.len() + 1
        &&& states[0] == before
        &&& states[nodes.len() as int] == after
        &&& forall|i: int| 0 <= i < nodes.len() ==> #[trigger] node_step(states, nodes, i)
    }
}

/// One step of a walk over `contexts`.
pub open spec fn context_step<V: Visitor>(states: Seq<V>, contexts: Seq<ContextValue>, i: int) -> bool {
    states[i + 1].visited_context(states[i], contexts[i])
}

/// The visitor went from `before` to `after` by visiting `contexts`, one after another.
pub open spec fn visited_each_context<V: Visitor>(before: V, after: V, contexts: Seq<ContextValue>) -> bool {
    exists|states: Seq<V>| {
        &&& states.len() == contexts.len() + 1
        &&& states[0] == before
        &&& states[contexts.len() as int] == after
        &&& forall|i: int| 0 <= i < contexts.len() ==> #[trigger] context_step(states, contexts, i)
    }
}

/// One step of a changing walk over `nodes`.
pub open spec fn node_step_mut<V: VisitorMut>(states: Seq<V>, nodes: Seq<Frame>, i: int) -> bool {
    states[i + 1].visited_mut(states[i], nodes[i])
}

/// The visitor went from `before` to `after` by visiting `nodes`, as they were when
/// handed over, one after another.
pub open spec fn visited_each_mut<V: VisitorMut>(before: V, after: V, nodes: Seq<Frame>) -> bool {
    exists|states: Seq<V>| {
        &&& states.len() == nodes.len() + 1
        &&& states[0] == before
        &&& states[nodes.len() as int] == after
        &&& forall|i: int| 0 <= i < nodes.len() ==> #[trigger] node_step_mut(states, nodes, i)
    }
}

/// One step of a changing walk over `contexts`.
pub open spec fn context_step_mut<V: VisitorMut>(states: Seq<V>, contexts: Seq<ContextValue>, i: int) -> bool {
    states[i + 1].visited_context_mut(states[i], contexts[i])
}

/// The visitor went from `before` to `after` by visiting `contexts`, as they were when
/// handed over, one after another.
pub open spec fn visited_each_context_mut<V: VisitorMut>(
    before: V,
    after: V,
    contexts: Seq<ContextValue>,
) -> bool {
    exists|states: Seq<V>| {
        &&& states.len() == contexts.len() + 1
        &&& states[0] == before
        &&& states[contexts.len() as int] == after
        &&& forall|i: int| 0 <= i < contexts.len() ==> #[trigger] context_step_mut(states, contexts, i)
    }
}

/// The index of the first context entry of `contexts` with type identifier `k`.
pub open spec fn first_context_of_kind(contexts: Seq<ContextValue>, k: TypeId) -> Option<int>
    decreases contexts.len(),
{
    if contexts.len() == 0 {
        None
    } else if contexts[0].kind == k {
        Some(0)
    } else {
        match first_context_of_kind(contexts.drop_first(), k) {
            Some(i) => Some(i + 1),
            None => None,
        }
    }
}

/// The first context entry of `f` with type identifier `kind`, oldest first.
pub fn find_context<'a>(f: &'a Frame, kind: &TypeId) -> (r: Option<&'a ContextValue>)
    ensures
        match first_context_of_kind(f.contexts@, *kind) {
            Some(i) => r == Some(&f.contexts@[i]),
            None => r is None,
        },
{
    let n = f.contexts.len();
    let mut i: usize = 0;
    assert(f.contexts@.subrange(0, n as int) =~= f.contexts@);
    while i < n
        invariant
            n == f.contexts@.len(),
            i <= n,
            first_context_of_kind(f.contexts@, *kind) == (match first_context_of_kind(f.contexts@.subrange(i as int, n as int), *kind) {
                Some(j) => Some(j + i),
                None => None::<int>,
            }),
        decreases n - i,
    {
        let c = &f.contexts[i];
        let ghost rest = f.contexts@.subrange(i as int, n as int);
        assert(rest.drop_first() =~= f.contexts@.subrange(i + 1, n as int));
        if same_type(&c.kind, kind) {
            return Some(c);
        }
        i = i + 1;
    }
    None
}

/// A read-only view of one node of an error tree, which knows its place among its
/// siblings.
pub struct ExnView<'a> {
    node: &'a Frame,
    parent: Option<&'a Frame>,
    index: usize,
}

impl<'a> ExnView<'a> {
    /// The node seen.
    pub closed spec fn node(&self) -> Frame {
        *self.node
    }

    /// The node's parent, for a node that is not the root of the view.
    pub closed spec fn parent(&self) -> Option<Frame> {
        match self.parent {
            Some(p) => Some(*p),
            None => None,
        }
    }

    /// The node's place among its parent's children.
    pub closed spec fn index(&self) -> nat {
        self.index as nat
    }

    /// A view of `frame` as the root.
    pub fn new(frame: &'a Frame) -> (r: ExnView<'a>)
        ensures
            r.node() == *frame,
            r.parent() is None,
    {
        ExnView { node: frame, parent: None, index: 0 }
    }

    fn child(parent: &'a Frame, index: usize) -> (r: ExnView<'a>)
        requires
            index < parent.children@.len(),
        ensures
            r.node() == parent.children@[index as int],
            r.parent() == Some(*parent),
            r.index() == index,
    {
        ExnView { node: &parent.children[index], parent: Some(parent), index }
    }

    /// The node seen.
    pub fn frame(&self) -> (r: &'a Frame)
        ensures
            *r == self.node(),
    {
        self.node
    }

    /// Views of the node's children, in order.
    pub fn children(&self) -> (r: Vec<ExnView<'a>>)
        ensures
            r@.len() == self.node().children@.len(),
            forall|i: int| 0 <= i < r@.len() ==> {
                &&& (#[trigger] r@[i]).node() == self.node().children@[i]
                &&& r@[i].parent() == Some(self.node())
                &&& r@[i].index() == i
            },
    {
        let node = self.node;
        let n = node.children.len();
        let mut out: Vec<ExnView<'a>> = Vec::new();
        let mut i: usize = 0;
        while i < n
            invariant
                n == node.children@.len(),
                i <= n,
                out@.len() == i,
                forall|j: int| 0 <= j < i ==> {
                    &&& (#[trigger] out@[j]).node() == node.children@[j]
                    &&& out@[j].parent() == Some(*node)
                    &&& out@[j].index() == j
                },
            decreases n - i,
        {
            out.push(ExnView::child(node, i));
            i = i + 1;
        }
        out
    }

    /// The number of the node's children.
    pub fn children_len(&self) -> (r: usize)
        ensures
            r == self.node().children@.len(),
    {
        self.node.children.len()
    }

    /// Views of the node's context entries, oldest first.
    pub fn contexts(&self) -> (r: Vec<ContextView<'a>>)
        ensures
            r@.len() == self.node().contexts@.len(),
            forall|i: int| 0 <= i < r@.len() ==> (#[trigger] r@[i]).value() == self.node().contexts@[i],
    {
        let node = self.node;
        let n = node.contexts.len();
        let mut out: Vec<ContextView<'a>> = Vec::new();
        let mut i: usize = 0;
        while i < n
            invariant
                n == node.contexts@.len(),
                i <= n,
                out@.len() == i,
                forall|j: int| 0 <= j < i ==> (#[trigger] out@[j]).value() == node.contexts@[j],
            decreases n - i,
        {
            out.push(ContextView { value: &node.contexts[i] });
            i = i + 1;
        }
        out
    }

    /// Whether the node has a child.
    pub fn has_first_child(&self) -> (r: bool)
        ensures
            r == (self.node().children@.len() > 0),
    {
        self.node.children.len() > 0
    }

    /// Whether a sibling follows the node.
    pub fn has_next_sibling(&self) -> (r: bool)
        ensures
            r == (match self.parent() {
                Some(p) => self.index() + 1 < p.children@.len(),
                None => false,
            }),
    {
        match self.parent {
            Some(p) => self.index < p.children.len() && self.index + 1 < p.children.len(),
            None => false,
        }
    }

    /// A view of the node's first child, if it has one.
    pub fn first_child(&self) -> (r: Option<ExnView<'a>>)
        ensures
            match r {
                Some(c) => self.node().children@.len() > 0 && c.node() == self.node().children@[0]
                    && c.parent() == Some(self.node()) && c.index() == 0,
                None => self.node().children@.len() == 0,
            },
    {
        if self.node.children.len() > 0 {
            Some(ExnView::child(self.node, 0))
        } else {
            None
        }
    }

    /// A view of the sibling that follows the node, if there is one.
    pub fn next_sibling(&self) -> (r: Option<ExnView<'a>>)
        ensures
            match r {
                Some(s) => self.parent() is Some && s.parent() == self.parent()
                    && s.index() == self.index() + 1
                    && s.index() < self.parent()->Some_0.children@.len()
                    && s.node() == self.parent()->Some_0.children@[s.index() as int],
                None => !(match self.parent() {
                    Some(p) => self.index() + 1 < p.children@.len(),
                    None => false,
                }),
            },
    {
        match self.parent {
            Some(p) => {
                if self.index < p.children.len() && self.index + 1 < p.children.len() {
                    Some(ExnView::child(p, self.index + 1))
                } else {
                    None
                }
            },
            None => None,
        }
    }

    /// Hands the visitor a view of the node's first child, if it has one.
    pub fn visit_first_child<V: Visitor>(&self, visitor: &mut V)
        ensures
            self.node().children@.len() > 0 ==> final(visitor).visited(
                *old(visitor),
                self.node().children@[0],
            ),
            self.node().children@.len() == 0 ==> *final(visitor) == *old(visitor),
    {
        match self.first_child() {
            Some(c) => visitor.visit_exn(c),
            None => {},
        }
    }

    /// Hands the visitor a view of the sibling that follows the node, if there is one.
    pub fn visit_next_sibling<V: Visitor>(&self, visitor: &mut V)
        ensures
            match self.parent() {
                Some(p) => if self.index() + 1 < p.children@.len() {
                    final(visitor).visited(*old(visitor), p.children@[self.index() + 1int])
                } else {
                    *final(visitor) == *old(visitor)
                },
                None => *final(visitor) == *old(visitor),
            },
    {
        match self.next_sibling() {
            Some(s) => visitor.visit_exn(s),
            None => {},
        }
    }

    /// Hands the visitor a view of each of the node's children, in order.
    pub fn visit_children<V: Visitor>(&self, visitor: &mut V)
        ensures
            visited_each(*old(visitor), *final(visitor), self.node().children@),
    {
        let node = self.node;
        let n = node.children.len();
        let mut i: usize = 0;
        let ghost mut states: Seq<V> = seq![*visitor];
        while i < n
            invariant
                n == node.children@.len(),
                i <= n,
                states.len() == i + 1,
                states[0] == *old(visitor),
                states[i as int] == *visitor,
                forall|j: int| 0 <= j < i ==> #[trigger] node_step(states, node.children@, j),
            decreases n - i,
        {
            visitor.visit_exn(ExnView::child(node, i));
            proof {
                let prev = states;
                states = states.push(*visitor);
                assert forall|j: int| 0 <= j < i + 1 implies #[trigger] node_step(states, node.children@, j) by {
                    if j < i {
                        assert(node_step(prev, node.children@, j));
                    }
                }
            }
            i = i + 1;
        }
        assert(visited_each(*old(visitor), *visitor, node.children@));
    }

    /// Hands the visitor a view of each of the node's context entries, oldest first.
    pub fn visit_contexts<V: Visitor>(&self, visitor: &mut V)
        ensures
            visited_each_context(*old(visitor), *final(visitor), self.node().contexts@),
    {
        let node = self.node;
        let n = node.contexts.len();
        let mut i: usize = 0;
        let ghost mut states: Seq<V> = seq![*visitor];
        while i < n
            invariant
                n == node.contexts@.len(),
                i <= n,
                states.len() == i + 1,
                states[0] == *old(visitor),
                states[i as int] == *visitor,
                forall|j: int| 0 <= j < i ==> #[trigger] context_step(states, node.contexts@, j),
            decreases n - i,
        {
            visitor.visit_context(ContextView { value: &node.contexts[i] });
            proof {
                let prev = states;
                states = states.push(*visitor);
                assert forall|j: int| 0 <= j < i + 1 implies #[trigger] context_step(states, node.contexts@, j) by {
                    if j < i {
                        assert(context_step(prev, node.contexts@, j));
                    }
                }
            }
            i = i + 1;
        }
        assert(visited_each_context(*old(visitor), *visitor, node.contexts@));
    }

    /// The node's payload, ready for a checked cast.
    pub fn as_any(&self) -> (r: &'a ErasedValue)
        ensures
            *r == self.node().error.value,
    {
        &self.node.error.value
    }

    /// The node's error: its type identifier, display text and payload.
    pub fn as_error(&self) -> (r: &'a ErrorValue)
        ensures
            *r == self.node().error,
    {
        &self.node.error
    }

    /// Where the node's error was raised.
    pub fn location(&self) -> (r: &'a Location)
        ensures
            *r == self.node().location,
    {
        &self.node.location
    }

    /// The node's own payload, if it is a `T`.
    pub fn find_payload<T: 'static>(&self) -> (r: Option<&'a T>) {
        self.node.error.value.downcast_ref::<T>()
    }

    /// The first context entry of the node that is a `T`, oldest first.
    ///
    /// The search is `find_context` on the identifier of `T`, whose result is stated
    /// there; that this identifier is `T`'s, and the final cast, are std's and are not
    /// stated here.
    pub fn request_ref<T: 'static>(&self) -> (r: Option<&'a T>) {
        let kind = type_id_of::<T>();
        match find_context(self.node, &kind) {
            Some(c) => c.value.downcast_ref::<T>(),
            None => None,
        }
    }
}

/// A read-only view of one context entry.
pub struct ContextView<'a> {
    value: &'a ContextValue,
}

impl<'a> ContextView<'a> {
    /// The entry seen.
    pub closed spec fn value(&self) -> ContextValue {
        *self.value
    }

    /// The identifier of the entry's type.
    pub fn kind(&self) -> (r: &'a TypeId)
        ensures
            *r == self.value().kind,
    {
        &self.value.kind
    }

    /// The entry, ready for a checked cast.
    pub fn as_any(&self) -> (r: &'a ErasedValue)
        ensures
            *r == self.value().value,
    {
        &self.value.value
    }
}

/// A view of one node of an error tree through which its payload and context entries
/// may be changed; it holds the node and the siblings that follow it.
pub struct ExnViewMut<'a> {
    node: &'a mut Frame,
    rest: Option<&'a mut [Frame]>,
}

/// A view of the first frame of `level`, holding the frames after it as its following
/// siblings, or `None` for an empty level.
fn first_of<'b>(level: &'b mut [Frame]) -> (r: Option<ExnViewMut<'b>>)
    ensures
        r is None <==> old(level)@.len() == 0,
        r matches Some(v) ==> v.node() == old(level)@[0] && v.following() == old(level)@.drop_first(),
{
    if level.len() == 0 {
        return None;
    }
    let (head, tail) = level.split_at_mut(1);
    match head.first_mut() {
        Some(node) => {
            assert(tail@ =~= old(level)@.drop_first());
            Some(ExnViewMut { node, rest: Some(tail) })
        },
        None => None,
    }
}

impl<'a> ExnViewMut<'a> {
    /// The node seen.
    pub closed spec fn node(&self) -> Frame {
        *self.node
    }

    /// The siblings that follow the node, in order.
    pub closed spec fn following(&self) -> Seq<Frame> {
        match self.rest {
            Some(s) => s@,
            None => Seq::empty(),
        }
    }

    /// A view of `frame` as the root.
    pub fn new(frame: &'a mut Frame) -> (r: ExnViewMut<'a>)
        ensures
            r.node() == *old(frame),
            r.following() == Seq::<Frame>::empty(),
    {
        ExnViewMut { node: frame, rest: None }
    }

    /// The number of the node's children.
    pub fn children_len(&self) -> (r: usize)
        ensures
            r == self.node().children@.len(),
    {
        self.node.children.len()
    }

    /// Whether the node has a child.
    pub fn has_first_child(&self) -> (r: bool)
        ensures
            r == (self.node().children@.len() > 0),
    {
        self.node.children.len() > 0
    }

    /// Whether a sibling follows the node.
    pub fn has_next_sibling(&self) -> (r: bool)
        ensures
            r == (self.following().len() > 0),
    {
        match &self.rest {
            Some(s) => s.len() > 0,
            None => false,
        }
    }

    /// Hands the visitor a view of the node's first child, if it has one.
    pub fn visit_first_child<V: VisitorMut>(&mut self, visitor: &mut V)
        ensures
            old(self).node().children@.len() > 0 ==> final(visitor).visited_mut(
                *old(visitor),
                old(self).node().children@[0],
            ),
            old(self).node().children@.len() == 0 ==> *final(visitor) == *old(visitor),
    {
        match first_of(self.node.children.as_mut_slice()) {
            Some(child) => visitor.visit_exn_mut(child),
            None => {},
        }
    }

    /// Hands the visitor a view of the sibling that follows the node, if there is one.
    pub fn visit_next_sibling<V: VisitorMut>(&mut self, visitor: &mut V)
        ensures
            old(self).following().len() > 0 ==> final(visitor).visited_mut(
                *old(visitor),
                old(self).following()[0],
            ),
            old(self).following().len() == 0 ==> *final(visitor) == *old(visitor),
    {
        match &mut self.rest {
            Some(s) => match first_of(&mut **s) {
                Some(sibling) => visitor.visit_exn_mut(sibling),
                None => {},
            },
            None => {},
        }
    }

    /// Hands the visitor a view of each of the node's children, in order; a child is
    /// shown without its following siblings, which come next anyway.
    pub fn visit_children<V: VisitorMut>(&mut self, visitor: &mut V)
        ensures
            visited_each_mut(*old(visitor), *final(visitor), old(self).node().children@),
    {
        let ghost children = self.node.children@;
        let n = self.node.children.len();
        let mut i: usize = 0;
        let ghost mut states: Seq<V> = seq![*visitor];
        while i < n
            invariant
                n == children.len(),
                i <= n,
                self.node.children@.len() == n,
                forall|j: int| i <= j < n ==> self.node.children@[j] == children[j],
                states.len() == i + 1,
                states[0] == *old(visitor),
                states[i as int] == *visitor,
                forall|j: int| 0 <= j < i ==> #[trigger] node_step_mut(states, children, j),
            decreases n - i,
        {
            let child = &mut self.node.children[i];
            visitor.visit_exn_mut(ExnViewMut { node: child, rest: None });
            proof {
                let prev = states;
                states = states.push(*visitor);
                assert forall|j: int| 0 <= j < i + 1 implies #[trigger] node_step_mut(states, children, j) by {
                    if j < i {
                        assert(node_step_mut(prev, children, j));
                    }
                }
            }
            i = i + 1;
        }
        assert(visited_each_mut(*old(visitor), *visitor, children));
    }

    /// Hands the visitor a view of each of the node's context entries, oldest first.
    pub fn visit_contexts<V: VisitorMut>(&mut self, visitor: &mut V)
        ensures
            visited_each_context_mut(*old(visitor), *final(visitor), old(self).node().contexts@),
    {
        let ghost contexts = self.node.contexts@;
        let n = self.node.contexts.len();
        let mut i: usize = 0;
        let ghost mut states: Seq<V> = seq![*visitor];
        while i < n
            invariant
                n == contexts.len(),
                i <= n,
                self.node.contexts@.len() == n,
                forall|j: int| i <= j < n ==> self.node.contexts@[j] == contexts[j],
                states.len() == i + 1,
                states[0] == *old(visitor),
                states[i as int] == *visitor,
                forall|j: int| 0 <= j < i ==> #[trigger] context_step_mut(states, contexts, j),
            decreases n - i,
        {
            let entry = &mut self.node.contexts[i];
            visitor.visit_context_mut(ContextViewMut { value: entry });
            proof {
                let prev = states;
                states = states.push(*visitor);
                assert forall|j: int| 0 <= j < i + 1 implies #[trigger] context_step_mut(states, contexts, j) by {
                    if j < i {
                        assert(context_step_mut(prev, contexts, j));
                    }
                }
            }
            i = i + 1;
        }
        assert(visited_each_context_mut(*old(visitor), *visitor, contexts));
    }

    /// Views of the node's context entries, oldest first, through which each may be
    /// changed.
    pub fn contexts(&mut self) -> (r: Vec<ContextViewMut<'_>>)
        ensures
            r@.len() == old(self).node().contexts@.len(),
            forall|i: int| 0 <= i < r@.len() ==> (#[trigger] r@[i]).value() == old(self).node().contexts@[i],
    {
        let ghost all = self.node.contexts@;
        let mut rest: &mut [ContextValue] = self.node.contexts.as_mut_slice();
        let mut out: Vec<ContextViewMut<'_>> = Vec::new();
        while rest.len() > 0
            invariant
                out@.len() + rest@.len() == all.len(),
                rest@ == all.subrange(out@.len() as int, all.len() as int),
                forall|j: int| 0 <= j < out@.len() ==> (#[trigger] out@[j]).value() == all[j],
            decreases rest@.len(),
        {
            let ghost k = out@.len() as int;
            let (head, tail) = rest.split_at_mut(1);
            match head.first_mut() {
                Some(entry) => {
                    out.push(ContextViewMut { value: entry });
                },
                None => {},
            }
            assert(tail@ =~= all.subrange(k + 1, all.len() as int));
            rest = tail;
        }
        out
    }

    /// The node's payload, ready for a checked cast.
    pub fn as_any(&self) -> (r: &ErasedValue)
        ensures
            *r == self.node().error.value,
    {
        &self.node.error.value
    }

    /// The node's payload, ready for a checked cast that may change it.
    pub fn as_any_mut(&mut self) -> (r: &mut ErasedValue)
        ensures
            *r == old(self).node().error.value,
    {
        &mut self.node.error.value
    }

    /// The node's error: its type identifier, display text and payload.
    pub fn as_error(&self) -> (r: &ErrorValue)
        ensures
            *r == self.node().error,
    {
        &self.node.error
    }

    /// The first context entry of the node that is a `T`, oldest first.
    ///
    /// The search is `find_context` on the identifier of `T`, whose result is stated
    /// there; that this identifier is `T`'s, and the final cast, are std's and are not
    /// stated here.
    pub fn request_ref<T: 'static>(&self) -> (r: Option<&T>) {
        let kind = type_id_of::<T>();
        match find_context(self.node, &kind) {
            Some(c) => c.value.downcast_ref::<T>(),
            None => None,
        }
    }
}

/// A view of one context entry through which it may be changed.
pub struct ContextViewMut<'a> {
    value: &'a mut ContextValue,
}

impl<'a> ContextViewMut<'a> {
    /// The entry seen.
    pub closed spec fn value(&self) -> ContextValue {
        *self.value
    }

    /// The entry, ready for a checked cast.
    pub fn as_any(&self) -> (r: &ErasedValue)
        ensures
            *r == self.value().value,
    {
        &self.value.value
    }

    /// The entry, ready for a checked cast that may change it.
    pub fn as_any_mut(&mut self) -> (r: &mut ErasedValue)
        ensures
            *r == old(self).value().value,
    {
        &mut self.value.value
    }
}

} // verus!
