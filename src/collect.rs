//! Gathering a sequence of partial results, stopping at the first failure.
use vstd::prelude::*;

use crate::value::ConversionError;

verus! {

/// Concatenates the pieces in order, or yields the first error among them.
pub open spec fn collect<X>(rs: Seq<Result<Seq<X>, ConversionError>>) -> Result<Seq<X>, ConversionError>
    decreases rs.len(),
{
    if rs.len() == 0 {
        Ok(Seq::empty())
    } else {
        match collect(rs.drop_last()) {
            Err(e) => Err(e),
            Ok(done) => match rs.last() {
                Ok(more) => Ok(done + more),
                Err(e) => Err(e),
            },
        }
    }
}

/// A result as a piece of at most one item.
pub open spec fn single<X>(r: Result<X, ConversionError>) -> Result<Seq<X>, ConversionError> {
    match r {
        Ok(x) => Ok(seq![x]),
        Err(e) => Err(e),
    }
}

pub proof fn lemma_collect_step<X>(rs: Seq<Result<Seq<X>, ConversionError>>, i: int)
    requires
        0 <= i < rs.len(),
    ensures
        collect(rs.take(i + 1)) == match collect(rs.take(i)) {
            Err(e) => Err(e),
            Ok(done) => match rs[i] {
                Ok(more) => Ok(done + more),
                Err(e) => Err(e),
            },
        },
{
    assert(rs.take(i + 1).drop_last() =~= rs.take(i));
}

pub proof fn lemma_collect_stops<X>(rs: Seq<Result<Seq<X>, ConversionError>>, i: int)
    requires
        0 <= i <= rs.len(),
        collect(rs.take(i)) is Err,
    ensures
        collect(rs) == collect(rs.take(i)),
    decreases rs.len() - i,
{
    if i < rs.len() {
        lemma_collect_step(rs, i);
        lemma_collect_stops(rs, i + 1);
    } else {
        assert(rs.take(i) =~= rs);
    }
}

pub proof fn lemma_collect_all<X>(rs: Seq<Result<Seq<X>, ConversionError>>)
    ensures
        collect(rs.take(rs.len() as int)) == collect(rs),
{
    assert(rs.take(rs.len() as int) =~= rs);
}

/// Where every piece is a single result, a success holds one item per piece, in order.
pub proof fn lemma_collect_singles<X>(rs: Seq<Result<Seq<X>, ConversionError>>, xs: Seq<X>)
    requires
        forall|i: int| 0 <= i < rs.len() ==> (#[trigger] rs[i] is Err || rs[i]->Ok_0.len() == 1),
        collect(rs) == Ok::<Seq<X>, ConversionError>(xs),
    ensures
        xs.len() == rs.len(),
        forall|i: int| 0 <= i < rs.len() ==> #[trigger] rs[i] == Ok::<Seq<X>, ConversionError>(seq![xs[i]]),
    decreases rs.len(),
{
    if rs.len() > 0 {
        let init = rs.drop_last();
        let done = collect(init)->Ok_0;
        assert forall|i: int| 0 <= i < init.len() implies (#[trigger] init[i] is Err || init[i]->Ok_0.len() == 1) by {
            assert(init[i] == rs[i]);
        }
        lemma_collect_singles(init, done);
        let more = rs.last()->Ok_0;
        assert(xs == done + more);
        assert forall|i: int| 0 <= i < rs.len() implies #[trigger] rs[i] == Ok::<Seq<X>, ConversionError>(seq![xs[i]]) by {
            if i < rs.len() - 1 {
                assert(init[i] == rs[i]);
            } else {
                assert(more =~= seq![xs[i]]);
            }
        }
    }
}

/// Where every piece is a successful single item, the pieces gather to those items.
pub proof fn lemma_collect_oks<X>(rs: Seq<Result<Seq<X>, ConversionError>>, xs: Seq<X>)
    requires
        rs.len() == xs.len(),
        forall|i: int| 0 <= i < rs.len() ==> #[trigger] rs[i] == Ok::<Seq<X>, ConversionError>(seq![xs[i]]),
    ensures
        collect(rs) == Ok::<Seq<X>, ConversionError>(xs),
    decreases rs.len(),
{
    if rs.len() > 0 {
        let init = rs.drop_last();
        assert forall|i: int| 0 <= i < init.len() implies #[trigger] init[i] == Ok::<Seq<X>, ConversionError>(seq![xs.drop_last()[i]]) by {
            assert(init[i] == rs[i]);
        }
        lemma_collect_oks(init, xs.drop_last());
        assert(rs.last() == rs[rs.len() - 1]);
        assert(xs.drop_last() + seq![xs[xs.len() - 1]] =~= xs);
    } else {
        assert(xs =~= Seq::empty());
    }
}

} // verus!
