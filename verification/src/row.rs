//! Rows of items, seen through the views of the items.
use vstd::prelude::*;

verus! {

/// Takes the first item out of a row.
pub fn take_first<T: DeepView>(v: &mut Vec<T>) -> (r: T)
    requires
        old(v)@.len() > 0,
    ensures
        r.deep_view() == old(v).deep_view()[0],
        old(v).deep_view().len() == old(v)@.len(),
        final(v).deep_view() == old(v).deep_view().drop_first(),
        final(v)@ == old(v)@.drop_first(),
{
    let ghost before = v.deep_view();
    let ghost items = v@;
    let r = v.remove(0);
    proof {
        assert(v@ =~= items.drop_first());
        assert(before.len() == items.len());
        assert(before[0] == items[0].deep_view());
        assert forall|i: int| 0 <= i < v@.len() implies #[trigger] v.deep_view()[i]
            == before.drop_first()[i] by {
            assert(v.deep_view()[i] == v@[i].deep_view());
            assert(before[i + 1] == items[i + 1].deep_view());
        }
        assert(v.deep_view() =~= before.drop_first());
    }
    r
}

/// Puts an item at the end of a row.
pub fn put_last<T: DeepView>(v: &mut Vec<T>, x: T)
    ensures
        final(v).deep_view() == old(v).deep_view().push(x.deep_view()),
        final(v)@ == old(v)@.push(x),
{
    let ghost before = v.deep_view();
    let ghost d = x.deep_view();
    v.push(x);
    assert(v.deep_view() =~= before.push(d));
}

/// No items.
pub fn no_items<T: DeepView>() -> (r: Vec<T>)
    ensures
        r.deep_view() == Seq::<T::V>::empty(),
        r@ == Seq::<T>::empty(),
{
    let r: Vec<T> = Vec::new();
    assert(r.deep_view() =~= Seq::<T::V>::empty());
    r
}

/// One item.
pub fn one_item<T: DeepView>(x: T) -> (r: Vec<T>)
    ensures
        r.deep_view() == seq![x.deep_view()],
        r@ == seq![x],
{
    let mut r: Vec<T> = no_items();
    let ghost d = x.deep_view();
    put_last(&mut r, x);
    assert(r.deep_view() =~= seq![d]);
    r
}

/// Puts items at the end of a row.
pub fn put_all<T: DeepView>(v: &mut Vec<T>, more: Vec<T>)
    ensures
        final(v).deep_view() == old(v).deep_view() + more.deep_view(),
        final(v)@ == old(v)@ + more@,
{
    let ghost a = v.deep_view();
    let ghost b = more.deep_view();
    let mut more = more;
    v.append(&mut more);
    assert(v.deep_view() =~= a + b);
}

} // verus!
