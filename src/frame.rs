use std::any::TypeId;
use vstd::prelude::*;

use crate::erased::type_id_of;
use crate::erased::ErasedValue;
use crate::location::Location;

verus! {

/// The payload types that an error tree holds.
///
/// An error shows a display text and may carry a native cause chain: the errors it
/// wraps itself, nearest first, of which only the display texts are kept.
pub trait Error: Sized + Send + Sync + 'static {
    /// The display text.
    spec fn text(&self) -> Seq<char>;

    /// The display texts of the native cause chain, nearest cause first.
    spec fn cause_texts(&self) -> Seq<Seq<char>>;

    /// Returns the display text.
    fn message(&self) -> (r: String)
        ensures
            r@ == self.text(),
    ;

    /// Returns the display texts of the native cause chain, nearest cause first.
    fn causes(&self) -> (r: Vec<String>)
        ensures
            texts_of(r@) == self.cause_texts(),
    ;
}

/// The views of a sequence of strings.
pub open spec fn texts_of(s: Seq<String>) -> Seq<Seq<char>> {
    s.map_values(|x: String| x@)
}

/// A native cause, kept as its display text alone.
struct SourceError(String);

impl Error for SourceError {
    closed spec fn text(&self) -> Seq<char> {
        self.0@
    }

    closed spec fn cause_texts(&self) -> Seq<Seq<char>> {
        Seq::empty()
    }

    fn message(&self) -> (r: String) {
        self.0.clone()
    }

    fn causes(&self) -> (r: Vec<String>) {
        let r: Vec<String> = Vec::new();
        assert(texts_of(r@) =~= Seq::empty());
        r
    }
}

/// One error payload with its concrete type erased: the type's identifier, the
/// display text, and the value itself.
pub struct ErrorValue {
    pub kind: TypeId,
    pub text: String,
    pub value: ErasedValue,
}

/// Access to an erased error payload.
pub trait ErasedErrorValue {
    /// The identifier of the payload's concrete type.
    fn kind(&self) -> &TypeId;

    /// The payload, ready for a checked cast.
    fn as_any(&self) -> &ErasedValue;

    /// The payload, ready for a checked cast that may change it.
    fn as_any_mut(&mut self) -> &mut ErasedValue;
}

impl ErrorValue {
    /// Erases `error`, keeping its display text.
    pub fn of<E: Error>(error: E) -> (r: ErrorValue)
        ensures
            r.text@ == error.text(),
    {
        let text = error.message();
        ErrorValue { kind: type_id_of::<E>(), text, value: ErasedValue::new(error) }
    }
}

impl ErasedErrorValue for ErrorValue {
    fn kind(&self) -> &TypeId {
        &self.kind
    }

    fn as_any(&self) -> &ErasedValue {
        &self.value
    }

    fn as_any_mut(&mut self) -> &mut ErasedValue {
        &mut self.value
    }
}

/// One context entry with its concrete type erased.
pub struct ContextValue {
    pub kind: TypeId,
    pub value: ErasedValue,
}

/// Access to an erased context entry.
pub trait ErasedContextValue {
    /// The identifier of the entry's concrete type.
    fn kind(&self) -> &TypeId;

    /// The entry, ready for a checked cast.
    fn as_any(&self) -> &ErasedValue;

    /// The entry, ready for a checked cast that may change it.
    fn as_any_mut(&mut self) -> &mut ErasedValue;
}

impl ContextValue {
    /// Erases `context`.
    pub fn of<C: Send + Sync + 'static>(context: C) -> (r: ContextValue) {
        ContextValue { kind: type_id_of::<C>(), value: ErasedValue::new(context) }
    }
}

impl ErasedContextValue for ContextValue {
    fn kind(&self) -> &TypeId {
        &self.kind
    }

    fn as_any(&self) -> &ErasedValue {
        &self.value
    }

    fn as_any_mut(&mut self) -> &mut ErasedValue {
        &mut self.value
    }
}

/// A node of an error tree: one error, where it was raised, the context attached to
/// it (oldest first), and the errors that caused it (the direct cause first).
pub struct Frame {
    pub error: ErrorValue,
    pub location: Location,
    pub contexts: Vec<ContextValue>,
    pub children: Vec<Frame>,
}

/// `frames` is the native cause chain with display texts `texts`: each cause the only
/// child of the one before, all raised at `at`, with no context.
pub open spec fn is_cause_chain(
    frames: Seq<Frame>,
    texts: Seq<Seq<char>>,
    at: (Seq<char>, u32, u32),
) -> bool
    decreases texts.len(),
{
    if texts.len() == 0 {
        frames.len() == 0
    } else {
        &&& frames.len() == 1
        &&& frames[0].error.text@ == texts[0]
        &&& frames[0].location@ == at
        &&& frames[0].contexts@.len() == 0
        &&& is_cause_chain(frames[0].children@, texts.drop_first(), at)
    }
}

/// `f` is a fresh frame for an error with display text `text` and native causes
/// `causes`, raised at `at` over the earlier trees `lead`: its children are `lead`,
/// in order, followed by the native cause chain.
pub open spec fn is_fresh(
    f: Frame,
    text: Seq<char>,
    causes: Seq<Seq<char>>,
    at: (Seq<char>, u32, u32),
    lead: Seq<Frame>,
) -> bool {
    &&& f.error.text@ == text
    &&& f.location@ == at
    &&& f.contexts@.len() == 0
    &&& lead.len() <= f.children@.len()
    &&& f.children@.subrange(0, lead.len() as int) == lead
    &&& is_cause_chain(f.children@.subrange(lead.len() as int, f.children@.len() as int), causes, at)
}

/// The nodes of the tree at `f`, in depth-first pre-order.
pub open spec fn nodes(f: Frame) -> Seq<Frame>
    decreases f, 1nat, 0nat,
{
    seq![f] + nodes_from(f, 0)
}

/// The nodes of the subtrees of `f`'s children from the `i`-th on, in pre-order.
pub open spec fn nodes_from(f: Frame, i: nat) -> Seq<Frame>
    decreases f, 0nat, f.children@.len() - i,
{
    if i < f.children@.len() {
        nodes(f.children@[i as int]) + nodes_from(f, i + 1)
    } else {
        Seq::empty()
    }
}

/// The first frame of `s` whose payload has type identifier `k`.
pub open spec fn first_of_kind(s: Seq<Frame>, k: TypeId) -> Option<Frame>
    decreases s.len(),
{
    if s.len() == 0 {
        None
    } else if s[0].error.kind == k {
        Some(s[0])
    } else {
        first_of_kind(s.drop_first(), k)
    }
}

/// The frames of `s` whose payload has type identifier `k`.
pub open spec fn of_kind(s: Seq<Frame>, k: TypeId) -> Seq<Frame> {
    s.filter(|x: Frame| x.error.kind == k)
}

/// The number of edges on the longest path from `f` down to a leaf.
pub open spec fn depth(f: Frame) -> nat
    decreases f, 1nat, 0nat,
{
    if f.children@.len() == 0 {
        0
    } else {
        1 + max_depth_from(f, 0)
    }
}

/// The greatest depth among `f`'s children from the `i`-th on (0 when there are none).
pub open spec fn max_depth_from(f: Frame, i: nat) -> nat
    decreases f, 0nat, f.children@.len() - i,
{
    if i < f.children@.len() {
        let d = depth(f.children@[i as int]);
        let rest = max_depth_from(f, i + 1);
        if d >= rest { d } else { rest }
    } else {
        0
    }
}


/// The first frame of `a + b` of a kind is the first in `a`, or else the first in `b`.
pub proof fn lemma_first_of_kind_append(a: Seq<Frame>, b: Seq<Frame>, k: TypeId)
    ensures
        first_of_kind(a + b, k) == (if first_of_kind(a, k) is Some {
            first_of_kind(a, k)
        } else {
            first_of_kind(b, k)
        }),
    decreases a.len(),
{
    if a.len() > 0 {
        assert((a + b).drop_first() =~= a.drop_first() + b);
        lemma_first_of_kind_append(a.drop_first(), b, k);
    } else {
        assert(a + b =~= b);
    }
}

/// The first frame of a kind is the first of the frames of that kind.
pub proof fn lemma_first_of_kind_filter(s: Seq<Frame>, k: TypeId)
    ensures
        first_of_kind(s, k) == (if of_kind(s, k).len() > 0 {
            Some(of_kind(s, k)[0])
        } else {
            None::<Frame>
        }),
    decreases s.len(),
{
    if s.len() > 0 {
        let head = seq![s[0]];
        assert(s =~= head + s.drop_first());
        Seq::filter_distributes_over_add(head, s.drop_first(), |x: Frame| x.error.kind == k);
        reveal_with_fuel(Seq::filter, 2);
        assert(head.drop_last() =~= Seq::<Frame>::empty());
        lemma_first_of_kind_filter(s.drop_first(), k);
    }
}

fn cause_frames(causes: Vec<String>, at: &Location) -> (r: Vec<Frame>)
    ensures
        is_cause_chain(r@, texts_of(causes@), at@),
{
    let ghost texts = texts_of(causes@);
    let mut causes = causes;
    let mut chain: Vec<Frame> = Vec::new();
    while causes.len() > 0
        invariant
            causes@.len() <= texts.len(),
            texts_of(causes@) == texts.subrange(0, causes@.len() as int),
            is_cause_chain(chain@, texts.subrange(causes@.len() as int, texts.len() as int), at@),
        decreases causes.len(),
    {
        let ghost k = causes@.len() as int;
        let ghost before = causes@;
        let text = causes.pop().unwrap();
        assert(text@ == texts[k - 1]) by {
            assert(before[k - 1] == text);
            assert(texts_of(before)[k - 1] == before[k - 1]@);
        }
        let error = ErrorValue::of(SourceError(text));
        let frame = Frame { error, location: at.clone(), contexts: Vec::new(), children: chain };
        chain = vec![frame];
        proof {
            let rest = texts.subrange(k - 1, texts.len() as int);
            assert(rest.drop_first() =~= texts.subrange(k, texts.len() as int));
            assert(texts_of(causes@) =~= texts.subrange(0, k - 1));
        }
    }
    assert(texts.subrange(0, texts.len() as int) =~= texts);
    chain
}

impl Frame {
    /// A fresh frame for `error` raised at `at`, over the earlier trees `lead`.
    pub fn build<E: Error>(error: E, at: Location, lead: Vec<Frame>) -> (r: Frame)
        ensures
            is_fresh(r, error.text(), error.cause_texts(), at@, lead@),
    {
        let causes = error.causes();
        let mut chain = cause_frames(causes, &at);
        let ghost chain_view = chain@;
        let value = ErrorValue::of(error);
        let mut children = lead;
        let ghost lead_view = children@;
        children.append(&mut chain);
        proof {
            assert(children@.subrange(0, lead_view.len() as int) =~= lead_view);
            assert(children@.subrange(lead_view.len() as int, children@.len() as int) =~= chain_view);
        }
        Frame { error: value, location: at, contexts: Vec::new(), children }
    }

    /// The error of this frame.
    pub fn error(&self) -> (r: &ErrorValue)
        ensures
            *r == self.error,
    {
        &self.error
    }

    /// The location where this frame was raised.
    pub fn location(&self) -> (r: &Location)
        ensures
            *r == self.location,
    {
        &self.location
    }

    /// The children of this frame: its direct cause first.
    pub fn children(&self) -> (r: &Vec<Frame>)
        ensures
            *r == self.children,
    {
        &self.children
    }

    /// The direct cause of this frame: its first child, if it has one.
    pub fn source(&self) -> (r: Option<&Frame>)
        ensures
            match r {
                Some(c) => self.children@.len() > 0 && *c == self.children@[0],
                None => self.children@.len() == 0,
            },
    {
        if self.children.len() > 0 {
            Some(&self.children[0])
        } else {
            None
        }
    }

    /// The first frame, in depth-first pre-order from this one, whose payload has type
    /// identifier `kind`.
    pub fn find_frame(&self, kind: &TypeId) -> (r: Option<&Frame>)
        ensures
            match r {
                Some(x) => first_of_kind(nodes(*self), *kind) == Some(*x),
                None => first_of_kind(nodes(*self), *kind) is None,
            },
        decreases self,
    {
        proof {
            assert(nodes(*self).drop_first() =~= nodes_from(*self, 0));
        }
        if crate::erased::same_type(&self.error.kind, kind) {
            return Some(self);
        }
        assert(nodes(*self)[0] == *self);
        assert(first_of_kind(nodes(*self), *kind) == first_of_kind(nodes_from(*self, 0), *kind));
        let n = self.children.len();
        let mut i: usize = 0;
        while i < n
            invariant
                n == self.children@.len(),
                i <= n,
                first_of_kind(nodes(*self), *kind) == first_of_kind(nodes_from(*self, 0), *kind),
                first_of_kind(nodes_from(*self, 0), *kind) == first_of_kind(nodes_from(*self, i as nat), *kind),
            decreases n - i,
        {
            let child = &self.children[i];
            proof {
                assert(nodes_from(*self, i as nat) == nodes(*child) + nodes_from(*self, (i + 1) as nat));
                lemma_first_of_kind_append(nodes(*child), nodes_from(*self, (i + 1) as nat), *kind);
            }
            match child.find_frame(kind) {
                Some(x) => {
                    return Some(x);
                },
                None => {},
            }
            i = i + 1;
        }
        None
    }

    /// The payload of the first frame, in depth-first pre-order from this one, whose
    /// payload is a `T`.
    ///
    /// The search is `find_frame` on the identifier of `T`, whose result is stated
    /// there; that this identifier is `T`'s, and the final cast, are std's and are not
    /// stated here.
    pub fn find_payload<T: 'static>(&self) -> (r: Option<&T>) {
        let kind = type_id_of::<T>();
        match self.find_frame(&kind) {
            Some(f) => f.error.value.downcast_ref::<T>(),
            None => None,
        }
    }
}

/// A fresh frame built over `lead` for an error without native causes has exactly
/// `lead` as its children.
pub proof fn lemma_fresh_without_causes(
    f: Frame,
    text: Seq<char>,
    at: (Seq<char>, u32, u32),
    lead: Seq<Frame>,
)
    requires
        is_fresh(f, text, Seq::empty(), at, lead),
    ensures
        f.children@ == lead,
{
    let rest = f.children@.subrange(lead.len() as int, f.children@.len() as int);
    assert(rest.len() == 0);
    assert(f.children@ =~= f.children@.subrange(0, lead.len() as int));
}

/// Raising errors without native causes one at a time over a new tree: `chain[0]` is
/// the tree that `Exn::new` builds for an error without native causes, and `chain[i]`
/// the tree that `raise` builds over `chain[i - 1]`, for the error with text `texts[i]`
/// raised at `ats[i]`. Then each root's only child is the root before it, the leaf is
/// the first error, and the tree after `i` raises is `i` deep.
pub proof fn lemma_raise_chain_depth(
    chain: Seq<Frame>,
    texts: Seq<Seq<char>>,
    ats: Seq<(Seq<char>, u32, u32)>,
)
    requires
        chain.len() >= 1,
        texts.len() == chain.len(),
        ats.len() == chain.len(),
        is_fresh(chain[0], texts[0], Seq::empty(), ats[0], Seq::empty()),
        forall|i: int| 1 <= i < chain.len() ==> #[trigger] is_fresh(
            chain[i],
            texts[i],
            Seq::empty(),
            ats[i],
            seq![chain[i - 1]],
        ),
    ensures
        chain[0].children@.len() == 0,
        chain[0].error.text@ == texts[0],
        forall|i: int| 1 <= i < chain.len() ==> (#[trigger] chain[i]).children@ == seq![chain[i - 1]],
        forall|i: int| 0 <= i < chain.len() ==> depth(#[trigger] chain[i]) == i,
    decreases chain.len(),
{
    lemma_fresh_without_causes(chain[0], texts[0], ats[0], Seq::empty());
    if chain.len() > 1 {
        let k = chain.len() - 1;
        lemma_raise_chain_depth(chain.drop_last(), texts.drop_last(), ats.drop_last());
        assert forall|i: int| 1 <= i < chain.len() implies (#[trigger] chain[i]).children@ == seq![chain[i - 1]] by {
            lemma_fresh_without_causes(chain[i], texts[i], ats[i], seq![chain[i - 1]]);
        }
        let last = chain[k];
        assert(depth(chain.drop_last()[k - 1]) == k - 1);
        assert(max_depth_from(last, 1) == 0);
        assert(max_depth_from(last, 0) == depth(chain[k - 1]));
        assert forall|i: int| 0 <= i < chain.len() implies depth(#[trigger] chain[i]) == i by {
            if i < k {
                assert(chain[i] == chain.drop_last()[i]);
            }
        }
    } else {
        assert(depth(chain[0]) == 0);
    }
}

/// Search by payload type: in a tree where `x` is the only node whose payload has type
/// identifier `k`, the search finds `x`, however deep it stands and whatever comes
/// before it.
pub proof fn lemma_find_unique(f: Frame, k: TypeId, x: Frame)
    requires
        of_kind(nodes(f), k) == seq![x],
    ensures
        first_of_kind(nodes(f), k) == Some(x),
{
    lemma_first_of_kind_filter(nodes(f), k);
}

/// Search by payload type: in a tree with no node whose payload has type identifier
/// `k`, the search finds nothing.
pub proof fn lemma_find_absent(f: Frame, k: TypeId)
    requires
        of_kind(nodes(f), k).len() == 0,
    ensures
        first_of_kind(nodes(f), k) is None,
{
    lemma_first_of_kind_filter(nodes(f), k);
}

} // verus!
