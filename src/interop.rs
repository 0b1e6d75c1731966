use anyhow::Error as ForeignError;
use vstd::prelude::*;

use crate::exn::Exn;
use crate::frame::is_cause_chain;
use crate::frame::texts_of;
use crate::frame::Error;
use crate::location::Location;

verus! {

#[verifier::external_type_specification]
#[verifier::external_body]
pub struct ExForeignError(ForeignError);

/// Relies on `anyhow::Error::chain`, which yields the error itself and then each of
/// its sources in turn, so never nothing; each link is kept as its display text.
#[verifier::external_body]
fn chain_messages(err: &ForeignError) -> (r: Vec<String>)
    ensures
        r@.len() >= 1,
{
    err.chain().map(|e| e.to_string()).collect()
}

/// An error that is only a message: one link of a chain taken over from elsewhere.
pub struct AnyhowError(pub String);

impl Error for AnyhowError {
    open spec fn text(&self) -> Seq<char> {
        self.0@
    }

    open spec fn cause_texts(&self) -> Seq<Seq<char>> {
        Seq::empty()
    }

    fn message(&self) -> (r: String) {
        self.0.clone()
    }

    fn causes(&self) -> (r: Vec<String>) {
        let r: Vec<String> = Vec::new();
        assert(texts_of(r@) =~= Seq::empty());
        r
    }
}

/// A linear tree for a chain of messages, outermost first: the root holds the first
/// message and each frame's only child the next one, all raised at `at`. `None` for an
/// empty chain.
pub fn from_messages(messages: Vec<String>, at: Location) -> (r: Option<Exn<AnyhowError>>)
    ensures
        r is Some <==> messages@.len() > 0,
        r matches Some(e) ==> is_cause_chain(seq![e@], texts_of(messages@), at@),
{
    let ghost texts = texts_of(messages@);
    let mut rest = messages;
    let n = rest.len();
    if n == 0 {
        return None;
    }
    let leaf = rest.pop().unwrap();
    let mut exn = Exn::new(AnyhowError(leaf), at.clone());
    proof {
        let tail = texts.subrange(n - 1, n as int);
        assert(exn@.children@.subrange(0, exn@.children@.len() as int) =~= exn@.children@);
        assert(tail.drop_first() =~= Seq::<Seq<char>>::empty());
        assert(texts_of(rest@) =~= texts.subrange(0, n - 1));
    }
    while rest.len() > 0
        invariant
            rest@.len() < n,
            n == texts.len(),
            texts_of(rest@) == texts.subrange(0, rest@.len() as int),
            is_cause_chain(seq![exn@], texts.subrange(rest@.len() as int, n as int), at@),
        decreases rest.len(),
    {
        let ghost k = rest@.len() as int;
        let ghost before = rest@;
        let ghost below = exn@;
        let message = rest.pop().unwrap();
        assert(message@ == texts[k - 1]) by {
            assert(texts_of(before)[k - 1] == before[k - 1]@);
        }
        exn = exn.raise(AnyhowError(message), at.clone());
        proof {
            let part = texts.subrange(k - 1, n as int);
            assert(part.drop_first() =~= texts.subrange(k, n as int));
            assert(exn@.children@ == seq![below]);
            assert(texts_of(rest@) =~= texts.subrange(0, k - 1));
        }
    }
    assert(texts.subrange(0, n as int) =~= texts);
    Some(exn)
}

/// A linear tree for `err` and its chain of sources, outermost first, each kept as its
/// display text, all raised at `at`.
pub fn from_anyhow(err: ForeignError, at: Location) -> (r: Exn<AnyhowError>)
    ensures
        exists|m: Seq<Seq<char>>| m.len() >= 1 && #[trigger] is_cause_chain(seq![r@], m, at@),
{
    let messages = chain_messages(&err);
    match from_messages(messages, at) {
        Some(e) => e,
        None => vstd::pervasive::unreached(),
    }
}

} // verus!
