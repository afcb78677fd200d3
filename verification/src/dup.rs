//! Exact copies of values, stated over their deep views.
use vstd::prelude::*;

verus! {

/// A value that can be copied so that the copy has the same deep view.
pub trait Dup: Sized + DeepView {
    fn dup(&self) -> (r: Self)
        ensures
            r.deep_view() == self.deep_view(),
    ;
}

impl Dup for String {
    fn dup(&self) -> (r: Self) {
        self.clone()
    }
}

impl Dup for u16 {
    fn dup(&self) -> (r: Self) {
        *self
    }
}

impl Dup for u64 {
    fn dup(&self) -> (r: Self) {
        *self
    }
}

impl<T: Dup> Dup for Option<T> {
    fn dup(&self) -> (r: Self) {
        match self {
            Some(t) => Some(t.dup()),
            None => None,
        }
    }
}

impl<T: Dup> Dup for Vec<T> {
    fn dup(&self) -> (r: Self) {
        let mut r: Vec<T> = Vec::new();
        let mut i: usize = 0;
        while i < self.len()
            invariant
                i <= self.len(),
                r.deep_view() =~= self.deep_view().take(i as int),
            decreases self.len() - i,
        {
            let x = self[i].dup();
            push_deep(&mut r, x);
            proof {
                assert(r.deep_view() =~= self.deep_view().take(i + 1));
            }
            i = i + 1;
        }
        proof {
            assert(self.deep_view().take(self.len() as int) =~= self.deep_view());
        }
        r
    }
}

/// Appends `x` to `v`; the deep view grows by `x`'s deep view.
pub fn push_deep<T: DeepView>(v: &mut Vec<T>, x: T)
    ensures
        final(v).deep_view() == old(v).deep_view().push(x.deep_view()),
{
    let ghost dx = x.deep_view();
    v.push(x);
    proof {
        assert(v.deep_view() =~= old(v).deep_view().push(dx));
    }
}

} // verus!
