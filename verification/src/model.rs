//! Values that are described by their deep view alone.
use vstd::prelude::*;

verus! {

/// A value that its deep view describes in full: it can be copied and compared without loss.
pub trait Model: DeepView + Sized {
    /// Another value with the same deep view.
    fn dup(&self) -> (r: Self)
        ensures
            r.deep_view() == self.deep_view(),
    ;

    /// Whether two values have the same deep view.
    fn same(&self, other: &Self) -> (r: bool)
        ensures
            r == (self.deep_view() == other.deep_view()),
    ;
}

impl Model for String {
    fn dup(&self) -> (r: Self) {
        self.clone()
    }

    fn same(&self, other: &Self) -> (r: bool) {
        *self == *other
    }
}

impl Model for bool {
    fn dup(&self) -> (r: Self) {
        *self
    }

    fn same(&self, other: &Self) -> (r: bool) {
        *self == *other
    }
}

impl Model for u8 {
    fn dup(&self) -> (r: Self) {
        *self
    }

    fn same(&self, other: &Self) -> (r: bool) {
        *self == *other
    }
}

impl Model for i32 {
    fn dup(&self) -> (r: Self) {
        *self
    }

    fn same(&self, other: &Self) -> (r: bool) {
        *self == *other
    }
}

impl Model for u32 {
    fn dup(&self) -> (r: Self) {
        *self
    }

    fn same(&self, other: &Self) -> (r: bool) {
        *self == *other
    }
}

impl Model for u128 {
    fn dup(&self) -> (r: Self) {
        *self
    }

    fn same(&self, other: &Self) -> (r: bool) {
        *self == *other
    }
}

impl Model for i64 {
    fn dup(&self) -> (r: Self) {
        *self
    }

    fn same(&self, other: &Self) -> (r: bool) {
        *self == *other
    }
}

impl Model for u64 {
    fn dup(&self) -> (r: Self) {
        *self
    }

    fn same(&self, other: &Self) -> (r: bool) {
        *self == *other
    }
}

impl Model for usize {
    fn dup(&self) -> (r: Self) {
        *self
    }

    fn same(&self, other: &Self) -> (r: bool) {
        *self == *other
    }
}

impl<T: Model> Model for Option<T> {
    fn dup(&self) -> (r: Self) {
        match self {
            Some(x) => Some(x.dup()),
            None => None,
        }
    }

    fn same(&self, other: &Self) -> (r: bool) {
        match (self, other) {
            (Some(x), Some(y)) => x.same(y),
            (None, None) => true,
            _ => false,
        }
    }
}

impl<T: Model> Model for Vec<T> {
    fn dup(&self) -> (r: Self) {
        let mut out: Vec<T> = Vec::new();
        let mut i: usize = 0;
        while i < self.len()
            invariant
                i <= self.len(),
                out.deep_view() == self.deep_view().take(i as int),
            decreases self.len() - i,
        {
            let item = self[i].dup();
            let ghost before = out.deep_view();
            out.push(item);
            i = i + 1;
            assert(out.deep_view() =~= before.push(item.deep_view()));
            assert(out.deep_view() =~= self.deep_view().take(i as int));
        }
        assert(self.deep_view().take(i as int) =~= self.deep_view());
        out
    }

    fn same(&self, other: &Self) -> (r: bool) {
        if self.len() != other.len() {
            assert(self.deep_view().len() != other.deep_view().len());
            return false;
        }
        let mut i: usize = 0;
        while i < self.len()
            invariant
                i <= self.len(),
                self.len() == other.len(),
                self.deep_view().take(i as int) == other.deep_view().take(i as int),
            decreases self.len() - i,
        {
            if !self[i].same(&other[i]) {
                assert(self.deep_view()[i as int] != other.deep_view()[i as int]);
                return false;
            }
            i = i + 1;
            assert(self.deep_view().take(i as int) =~= self.deep_view().take(i - 1).push(
                self.deep_view()[i - 1],
            ));
            assert(other.deep_view().take(i as int) =~= other.deep_view().take(i - 1).push(
                other.deep_view()[i - 1],
            ));
        }
        assert(self.deep_view().take(i as int) =~= self.deep_view());
        assert(other.deep_view().take(i as int) =~= other.deep_view());
        true
    }
}

impl<A: Model, B: Model> Model for (A, B) {
    fn dup(&self) -> (r: Self) {
        (self.0.dup(), self.1.dup())
    }

    fn same(&self, other: &Self) -> (r: bool) {
        self.0.same(&other.0) && self.1.same(&other.1)
    }
}

} // verus!
