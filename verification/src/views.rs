//! Models of sequences and options, element by element.
use std::sync::Arc;
use vstd::prelude::*;

verus! {

/// The models of the items of a sequence.
pub open spec fn seq_view<T: View>(items: Seq<T>) -> Seq<T::V> {
    Seq::new(items.len(), |i: int| items[i]@)
}

/// The model of what an option holds.
pub open spec fn option_view<T: View>(option: Option<T>) -> Option<T::V> {
    match option {
        Some(item) => Some(item@),
        None => None,
    }
}

/// The model of an outcome.
pub open spec fn result_view<T: View, E: View>(outcome: Result<T, E>) -> Result<T::V, E::V> {
    match outcome {
        Ok(item) => Ok(item@),
        Err(error) => Err(error@),
    }
}

/// The models of a sequence of outcomes.
pub open spec fn results_view<T: View, E: View>(outcomes: Seq<Result<T, E>>) -> Seq<
    Result<T::V, E::V>,
> {
    Seq::new(outcomes.len(), |i: int| result_view(outcomes[i]))
}

/// Appending an item appends its model.
pub broadcast proof fn lemma_seq_view_push<T: View>(items: Seq<T>, item: T)
    ensures
        #[trigger] seq_view(items.push(item)) == seq_view(items).push(item@),
{
    assert(seq_view(items.push(item)) =~= seq_view(items).push(item@));
}

/// Another handle on the value that `item` points to (`Arc::clone`): both point to
/// the same value.
#[verifier::external_body]
pub(crate) fn share<T>(item: &Arc<T>) -> (res: Arc<T>)
    ensures
        res == *item,
{
    item.clone()
}

/// A copy of a list whose items' clones keep their models.
pub fn clone_all<T: Clone + View>(items: &Vec<T>) -> (res: Vec<T>)
    requires
        forall|item: T, copy: T| #[trigger] cloned(item, copy) ==> copy@ == item@,
    ensures
        seq_view(res@) == seq_view(items@),
{
    let res = items.clone();
    assert(seq_view(res@) =~= seq_view(items@));
    res
}

/// A copy of an option whose item's clone keeps its model.
pub fn clone_option<T: Clone + View>(option: &Option<T>) -> (res: Option<T>)
    requires
        forall|item: T, copy: T| #[trigger] cloned(item, copy) ==> copy@ == item@,
    ensures
        option_view(res) == option_view(*option),
{
    match option {
        Some(item) => {
            let copy = item.clone();
            assert(cloned(*item, copy));
            Some(copy)
        },
        None => None,
    }
}

/// Other handles on the values that `items` point to.
pub fn share_all<T>(items: &Vec<Arc<T>>) -> (res: Vec<Arc<T>>)
    ensures
        res@ == items@,
{
    let mut res: Vec<Arc<T>> = Vec::new();
    let mut i: usize = 0;
    while i < items.len()
        invariant
            i <= items@.len(),
            res@ == items@.take(i as int),
        decreases items@.len() - i,
    {
        res.push(share(&items[i]));
        assert(items@.take(i + 1) =~= items@.take(i as int).push(items@[i as int]));
        i = i + 1;
    }
    assert(res@ =~= items@);
    res
}

} // verus!
