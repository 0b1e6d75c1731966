use vstd::prelude::*;

use crate::exn::is_attached;
use crate::exn::Exn;
use crate::frame::is_fresh;
use crate::frame::Error;
use crate::location::Location;

verus! {

/// A success of a result whose failure is an error tree; spares naming the error type.
pub fn ok<T, E>(value: T) -> (r: Result<T, Exn<E>>)
    ensures
        r == Result::<T, Exn<E>>::Ok(value),
{
    Result::Ok(value)
}

/// Raising and attaching on the failure of a result.
pub trait ResultExt<T, E>: Sized {
    /// The result itself.
    spec fn as_result(&self) -> Result<T, Exn<E>>;

    /// On failure, raises the error that `err` makes, at `at`, over the failure's tree;
    /// a success is kept.
    fn or_raise<A: Error, F: FnOnce() -> A>(self, err: F, at: Location) -> (r: Result<T, Exn<A>>)
        requires
            err.requires(()),
        ensures
            match self.as_result() {
                Result::Ok(v) => r == Result::<T, Exn<A>>::Ok(v),
                Result::Err(x) => r is Err && exists|a: A| #[trigger] err.ensures((), a)
                    && is_fresh(r->Err_0@, a.text(), a.cause_texts(), at@, seq![x@]),
            },
    ;

    /// On failure, attaches the context that `context` makes to the failure's root; a
    /// success is kept.
    fn or_attach<C: Send + Sync + 'static, F: FnOnce() -> C>(self, context: F) -> (r: Result<T, Exn<E>>)
        requires
            context.requires(()),
        ensures
            match self.as_result() {
                Result::Ok(v) => r == Result::<T, Exn<E>>::Ok(v),
                Result::Err(x) => r is Err && is_attached(r->Err_0@, x@),
            },
    ;
}

impl<T, E> ResultExt<T, E> for Result<T, Exn<E>> {
    open spec fn as_result(&self) -> Result<T, Exn<E>> {
        *self
    }

    fn or_raise<A: Error, F: FnOnce() -> A>(self, err: F, at: Location) -> (r: Result<T, Exn<A>>) {
        match self {
            Result::Ok(v) => Result::Ok(v),
            Result::Err(x) => {
                let a = err();
                Result::Err(x.raise(a, at))
            },
        }
    }

    fn or_attach<C: Send + Sync + 'static, F: FnOnce() -> C>(self, context: F) -> (r: Result<T, Exn<E>>) {
        match self {
            Result::Ok(v) => Result::Ok(v),
            Result::Err(x) => {
                let c = context();
                Result::Err(x.attach(c))
            },
        }
    }
}

/// Raising on an absent value.
pub trait OptionExt<T>: Sized {
    /// The option itself.
    spec fn as_option(&self) -> Option<T>;

    /// A present value as a success; for an absent one, a new tree for the error that
    /// `err` makes, raised at `at`.
    fn ok_or_raise<A: Error, F: FnOnce() -> A>(self, err: F, at: Location) -> (r: Result<T, Exn<A>>)
        requires
            err.requires(()),
        ensures
            match self.as_option() {
                Some(v) => r == Result::<T, Exn<A>>::Ok(v),
                None => r is Err && exists|a: A| #[trigger] err.ensures((), a)
                    && is_fresh(r->Err_0@, a.text(), a.cause_texts(), at@, Seq::empty()),
            },
    ;
}

impl<T> OptionExt<T> for Option<T> {
    open spec fn as_option(&self) -> Option<T> {
        *self
    }

    fn ok_or_raise<A: Error, F: FnOnce() -> A>(self, err: F, at: Location) -> (r: Result<T, Exn<A>>) {
        match self {
            Some(v) => Result::Ok(v),
            None => {
                let a = err();
                Result::Err(Exn::new(a, at))
            },
        }
    }
}

} // verus!
