use vstd::prelude::*;

verus! {

/// The success values of `s`, in order.
pub open spec fn oks<T, E>(s: Seq<Result<T, E>>) -> Seq<T>
    decreases s.len(),
{
    if s.len() == 0 {
        Seq::empty()
    } else {
        match s.last() {
            Ok(t) => oks(s.drop_last()).push(t),
            Err(_) => oks(s.drop_last()),
        }
    }
}

/// The failures of `s`, in order.
pub open spec fn errs<T, E>(s: Seq<Result<T, E>>) -> Seq<E>
    decreases s.len(),
{
    if s.len() == 0 {
        Seq::empty()
    } else {
        match s.last() {
            Ok(_) => errs(s.drop_last()),
            Err(e) => errs(s.drop_last()).push(e),
        }
    }
}

/// Collecting a sequence of results without stopping at the first failure.
pub trait IteratorExt<T, E>: Sized {
    /// The results, in order.
    spec fn results(&self) -> Seq<Result<T, E>>;

    /// All the success values, in order, when every result is a success; otherwise all
    /// the failures, in order, after consuming every result.
    fn collect_all(self) -> (r: Result<Vec<T>, Vec<E>>)
        ensures
            match r {
                Ok(v) => errs(self.results()).len() == 0 && v@ == oks(self.results()),
                Err(e) => errs(self.results()).len() > 0 && e@ == errs(self.results()),
            },
    ;
}

impl<T, E> IteratorExt<T, E> for Vec<Result<T, E>> {
    open spec fn results(&self) -> Seq<Result<T, E>> {
        self@
    }

    fn collect_all(self) -> (r: Result<Vec<T>, Vec<E>>) {
        let ghost all = self@;
        let mut rest = self;
        let mut values: Vec<T> = Vec::new();
        let mut failures: Vec<E> = Vec::new();
        let mut i: usize = 0;
        let total = rest.len();
        while rest.len() > 0
            invariant
                all.len() == total,
                i + rest@.len() == all.len(),
                rest@ == all.subrange(i as int, all.len() as int),
                values@ == oks(all.subrange(0, i as int)),
                failures@ == errs(all.subrange(0, i as int)),
            decreases rest.len(),
        {
            let item = rest.remove(0);
            assert(all.subrange(0, i + 1).drop_last() =~= all.subrange(0, i as int));
            assert(all.subrange(0, i + 1).last() == item);
            match item {
                Ok(t) => values.push(t),
                Err(e) => failures.push(e),
            }
            i = i + 1;
            assert(rest@ =~= all.subrange(i as int, all.len() as int));
        }
        assert(all.subrange(0, i as int) =~= all);
        if failures.len() == 0 {
            Ok(values)
        } else {
            Err(failures)
        }
    }
}

} // verus!
