//! Orders on models: the order of texts, orders put together field by field, and stable sorting.
use core::cmp::Ordering;
use vstd::prelude::*;
use vstd::std_specs::iter::IteratorSpec;
use crate::model::Model;

verus! {

/// The outcome of holding one value against another.
#[derive(Clone, Copy, Debug, PartialEq, Eq, Structural)]
pub enum Rank {
    Less,
    Equal,
    Greater,
}

impl Rank {
    /// The outcome with the two sides exchanged.
    pub open spec fn flip(self) -> Rank {
        match self {
            Rank::Less => Rank::Greater,
            Rank::Equal => Rank::Equal,
            Rank::Greater => Rank::Less,
        }
    }

    /// This outcome, or the next one where this one does not decide.
    pub open spec fn or(self, next: Rank) -> Rank {
        if self == Rank::Equal {
            next
        } else {
            self
        }
    }

    /// The outcome as std names it.
    pub open spec fn named(self) -> Ordering {
        match self {
            Rank::Less => Ordering::Less,
            Rank::Equal => Ordering::Equal,
            Rank::Greater => Ordering::Greater,
        }
    }

    /// Computes `named`.
    pub fn to_named(self) -> (r: Ordering)
        ensures
            r == self.named(),
    {
        match self {
            Rank::Less => Ordering::Less,
            Rank::Equal => Ordering::Equal,
            Rank::Greater => Ordering::Greater,
        }
    }
}

/// A model with a total order up to equivalence.
pub trait Ranked: Model {
    /// How `a` stands to `b`.
    spec fn rank(a: Self::V, b: Self::V) -> Rank;

    proof fn rank_reflexive(a: Self::V)
        ensures
            Self::rank(a, a) == Rank::Equal,
    ;

    proof fn rank_flips(a: Self::V, b: Self::V)
        ensures
            Self::rank(b, a) == Self::rank(a, b).flip(),
    ;

    proof fn rank_chains(a: Self::V, b: Self::V, c: Self::V)
        requires
            Self::rank(a, b) != Rank::Greater,
            Self::rank(b, c) != Rank::Greater,
        ensures
            Self::rank(a, c) != Rank::Greater,
    ;

    /// Computes `rank`.
    fn against(&self, other: &Self) -> (r: Rank)
        ensures
            r == Self::rank(self.deep_view(), other.deep_view()),
    ;
}

/// A ranked model in which only equal values are equivalent.
pub trait Linear: Ranked {
    proof fn rank_separates(a: Self::V, b: Self::V)
        requires
            Self::rank(a, b) == Rank::Equal,
        ensures
            a == b,
    ;
}

/// All that the laws of an order say of three values.
pub proof fn rank_laws<T: Ranked>(a: T::V, b: T::V, c: T::V)
    ensures
        T::rank(a, a) == Rank::Equal,
        T::rank(b, a) == T::rank(a, b).flip(),
        T::rank(c, b) == T::rank(b, c).flip(),
        T::rank(c, a) == T::rank(a, c).flip(),
        T::rank(a, b) == Rank::Less && T::rank(b, c) != Rank::Greater ==> T::rank(a, c)
            == Rank::Less,
        T::rank(a, b) != Rank::Greater && T::rank(b, c) == Rank::Less ==> T::rank(a, c)
            == Rank::Less,
        T::rank(a, b) == Rank::Equal && T::rank(b, c) == Rank::Equal ==> T::rank(a, c)
            == Rank::Equal,
        T::rank(a, b) == Rank::Equal ==> T::rank(a, c) == T::rank(b, c),
        T::rank(b, c) == Rank::Equal ==> T::rank(a, b) == T::rank(a, c),
{
    T::rank_reflexive(a);
    T::rank_flips(a, b);
    T::rank_flips(b, c);
    T::rank_flips(a, c);
    if T::rank(a, b) != Rank::Greater && T::rank(b, c) != Rank::Greater {
        T::rank_chains(a, b, c);
    }
    if T::rank(c, a) != Rank::Greater && T::rank(a, b) != Rank::Greater {
        T::rank_chains(c, a, b);
    }
    if T::rank(b, c) != Rank::Greater && T::rank(c, a) != Rank::Greater {
        T::rank_chains(b, c, a);
    }
    if T::rank(b, a) != Rank::Greater && T::rank(a, c) != Rank::Greater {
        T::rank_chains(b, a, c);
    }
    if T::rank(c, b) != Rank::Greater && T::rank(b, a) != Rank::Greater {
        T::rank_chains(c, b, a);
    }
    if T::rank(a, c) != Rank::Greater && T::rank(c, b) != Rank::Greater {
        T::rank_chains(a, c, b);
    }
}

/// How two integers stand to each other.
pub open spec fn int_rank(a: int, b: int) -> Rank {
    if a < b {
        Rank::Less
    } else if a == b {
        Rank::Equal
    } else {
        Rank::Greater
    }
}

/// How two texts stand to each other: by the first place where they differ, a proper prefix first.
pub open spec fn text_rank(a: Seq<char>, b: Seq<char>) -> Rank
    decreases a.len(),
{
    if a.len() == 0 {
        if b.len() == 0 {
            Rank::Equal
        } else {
            Rank::Less
        }
    } else if b.len() == 0 {
        Rank::Greater
    } else if a[0] == b[0] {
        text_rank(a.drop_first(), b.drop_first())
    } else {
        int_rank(a[0] as int, b[0] as int)
    }
}

proof fn text_rank_reflexive(a: Seq<char>)
    ensures
        text_rank(a, a) == Rank::Equal,
    decreases a.len(),
{
    if a.len() > 0 {
        text_rank_reflexive(a.drop_first());
    }
}

proof fn text_rank_flips(a: Seq<char>, b: Seq<char>)
    ensures
        text_rank(b, a) == text_rank(a, b).flip(),
    decreases a.len(),
{
    if a.len() > 0 && b.len() > 0 && a[0] == b[0] {
        text_rank_flips(a.drop_first(), b.drop_first());
    }
}

proof fn text_rank_chains(a: Seq<char>, b: Seq<char>, c: Seq<char>)
    requires
        text_rank(a, b) != Rank::Greater,
        text_rank(b, c) != Rank::Greater,
    ensures
        text_rank(a, c) != Rank::Greater,
    decreases a.len(),
{
    if a.len() > 0 && b.len() > 0 && c.len() > 0 && a[0] == b[0] && b[0] == c[0] {
        text_rank_chains(a.drop_first(), b.drop_first(), c.drop_first());
    }
}

proof fn text_rank_separates(a: Seq<char>, b: Seq<char>)
    requires
        text_rank(a, b) == Rank::Equal,
    ensures
        a == b,
    decreases a.len(),
{
    if a.len() > 0 && b.len() > 0 {
        text_rank_separates(a.drop_first(), b.drop_first());
        assert(a =~= seq![a[0]] + a.drop_first());
        assert(b =~= seq![b[0]] + b.drop_first());
    } else {
        assert(a =~= b);
    }
}

/// Computes `text_rank`.
pub fn rank_texts(a: &str, b: &str) -> (r: Rank)
    ensures
        r == text_rank(a@, b@),
{
    let mut rest = b.chars();
    assert(a@.skip(0) =~= a@);
    for c in it: a.chars()
        invariant
            it.seq() == a@,
            text_rank(a@, b@) == text_rank(a@.skip(it.index()), rest.remaining()),
    {
        assert(a@.skip(it.index()).drop_first() =~= a@.skip(it.index() + 1));
        match rest.next() {
            None => {
                return Rank::Greater;
            },
            Some(d) => {
                if c != d {
                    if c < d {
                        return Rank::Less;
                    }
                    return Rank::Greater;
                }
            },
        }
    }
    match rest.next() {
        None => Rank::Equal,
        Some(_) => Rank::Less,
    }
}

impl Ranked for String {
    open spec fn rank(a: Seq<char>, b: Seq<char>) -> Rank {
        text_rank(a, b)
    }

    proof fn rank_reflexive(a: Seq<char>) {
        text_rank_reflexive(a);
    }

    proof fn rank_flips(a: Seq<char>, b: Seq<char>) {
        text_rank_flips(a, b);
    }

    proof fn rank_chains(a: Seq<char>, b: Seq<char>, c: Seq<char>) {
        text_rank_chains(a, b, c);
    }

    fn against(&self, other: &Self) -> (r: Rank) {
        rank_texts(self.as_str(), other.as_str())
    }
}

impl Linear for String {
    proof fn rank_separates(a: Seq<char>, b: Seq<char>) {
        text_rank_separates(a, b);
    }
}

/// How two values that may be missing stand to each other: a missing one first.
pub open spec fn option_rank<T: Ranked>(a: Option<T::V>, b: Option<T::V>) -> Rank {
    match (a, b) {
        (None, None) => Rank::Equal,
        (None, Some(_)) => Rank::Less,
        (Some(_), None) => Rank::Greater,
        (Some(x), Some(y)) => T::rank(x, y),
    }
}

impl<T: Ranked> Ranked for Option<T> {
    open spec fn rank(a: Option<T::V>, b: Option<T::V>) -> Rank {
        option_rank::<T>(a, b)
    }

    proof fn rank_reflexive(a: Option<T::V>) {
        assert(Self::rank(a, a) == option_rank::<T>(a, a));
        if a is Some {
            T::rank_reflexive(a->0);
        }
    }

    proof fn rank_flips(a: Option<T::V>, b: Option<T::V>) {
        if let (Some(x), Some(y)) = (a, b) {
            T::rank_flips(x, y);
        }
    }

    proof fn rank_chains(a: Option<T::V>, b: Option<T::V>, c: Option<T::V>) {
        if let (Some(x), Some(y), Some(z)) = (a, b, c) {
            T::rank_chains(x, y, z);
        }
    }

    fn against(&self, other: &Self) -> (r: Rank) {
        match (self, other) {
            (None, None) => Rank::Equal,
            (None, Some(_)) => Rank::Less,
            (Some(_), None) => Rank::Greater,
            (Some(x), Some(y)) => x.against(y),
        }
    }
}

impl<T: Linear> Linear for Option<T> {
    proof fn rank_separates(a: Option<T::V>, b: Option<T::V>) {
        if let (Some(x), Some(y)) = (a, b) {
            T::rank_separates(x, y);
        }
    }
}

impl<A: Ranked, B: Ranked> Ranked for (A, B) {
    open spec fn rank(a: (A::V, B::V), b: (A::V, B::V)) -> Rank {
        A::rank(a.0, b.0).or(B::rank(a.1, b.1))
    }

    proof fn rank_reflexive(a: (A::V, B::V)) {
        A::rank_reflexive(a.0);
        B::rank_reflexive(a.1);
    }

    proof fn rank_flips(a: (A::V, B::V), b: (A::V, B::V)) {
        A::rank_flips(a.0, b.0);
        B::rank_flips(a.1, b.1);
    }

    proof fn rank_chains(a: (A::V, B::V), b: (A::V, B::V), c: (A::V, B::V)) {
        rank_laws::<A>(a.0, b.0, c.0);
        rank_laws::<B>(a.1, b.1, c.1);
    }

    fn against(&self, other: &Self) -> (r: Rank) {
        match self.0.against(&other.0) {
            Rank::Equal => self.1.against(&other.1),
            outcome => outcome,
        }
    }
}

impl<A: Linear, B: Linear> Linear for (A, B) {
    proof fn rank_separates(a: (A::V, B::V), b: (A::V, B::V)) {
        A::rank_separates(a.0, b.0);
        B::rank_separates(a.1, b.1);
    }
}

/// How two sequences stand to each other: by the first place where they differ, a proper prefix
/// first.
pub open spec fn seq_rank<T: Ranked>(a: Seq<T::V>, b: Seq<T::V>) -> Rank
    decreases a.len(),
{
    if a.len() == 0 {
        if b.len() == 0 {
            Rank::Equal
        } else {
            Rank::Less
        }
    } else if b.len() == 0 {
        Rank::Greater
    } else {
        T::rank(a[0], b[0]).or(seq_rank::<T>(a.drop_first(), b.drop_first()))
    }
}

impl<T: Ranked> Ranked for Vec<T> {
    open spec fn rank(a: Seq<T::V>, b: Seq<T::V>) -> Rank {
        seq_rank::<T>(a, b)
    }

    proof fn rank_reflexive(a: Seq<T::V>)
        decreases a.len(),
    {
        assert(Self::rank(a, a) == seq_rank::<T>(a, a));
        if a.len() > 0 {
            T::rank_reflexive(a[0]);
            Self::rank_reflexive(a.drop_first());
        }
    }

    proof fn rank_flips(a: Seq<T::V>, b: Seq<T::V>)
        decreases a.len(),
    {
        if a.len() > 0 && b.len() > 0 {
            T::rank_flips(a[0], b[0]);
            Self::rank_flips(a.drop_first(), b.drop_first());
        }
    }

    proof fn rank_chains(a: Seq<T::V>, b: Seq<T::V>, c: Seq<T::V>)
        decreases a.len(),
    {
        if a.len() > 0 && b.len() > 0 && c.len() > 0 {
            rank_laws::<T>(a[0], b[0], c[0]);
            if T::rank(a[0], b[0]) == Rank::Equal && T::rank(b[0], c[0]) == Rank::Equal {
                Self::rank_chains(a.drop_first(), b.drop_first(), c.drop_first());
            }
        }
    }

    fn against(&self, other: &Self) -> (r: Rank) {
        let mut i: usize = 0;
        assert(self.deep_view().skip(0) =~= self.deep_view());
        assert(other.deep_view().skip(0) =~= other.deep_view());
        while i < self.len() && i < other.len()
            invariant
                i <= self.len(),
                i <= other.len(),
                seq_rank::<T>(self.deep_view(), other.deep_view()) == seq_rank::<T>(
                    self.deep_view().skip(i as int),
                    other.deep_view().skip(i as int),
                ),
            decreases self.len() - i,
        {
            assert(self.deep_view().skip(i as int).drop_first() =~= self.deep_view().skip(i + 1));
            assert(other.deep_view().skip(i as int).drop_first() =~= other.deep_view().skip(i + 1));
            match self[i].against(&other[i]) {
                Rank::Equal => {},
                outcome => return outcome,
            }
            i = i + 1;
        }
        if i < self.len() {
            Rank::Greater
        } else if i < other.len() {
            Rank::Less
        } else {
            Rank::Equal
        }
    }
}

impl<T: Linear> Linear for Vec<T> {
    proof fn rank_separates(a: Seq<T::V>, b: Seq<T::V>)
        decreases a.len(),
    {
        if a.len() > 0 && b.len() > 0 {
            T::rank_separates(a[0], b[0]);
            Self::rank_separates(a.drop_first(), b.drop_first());
            assert(a =~= seq![a[0]] + a.drop_first());
            assert(b =~= seq![b[0]] + b.drop_first());
        } else {
            assert(a =~= b);
        }
    }
}

impl Ranked for u8 {
    open spec fn rank(a: u8, b: u8) -> Rank {
        int_rank(a as int, b as int)
    }

    proof fn rank_reflexive(a: u8) {
    }

    proof fn rank_flips(a: u8, b: u8) {
    }

    proof fn rank_chains(a: u8, b: u8, c: u8) {
    }

    fn against(&self, other: &Self) -> (r: Rank) {
        if *self < *other {
            Rank::Less
        } else if *self == *other {
            Rank::Equal
        } else {
            Rank::Greater
        }
    }
}

impl Linear for u8 {
    proof fn rank_separates(a: u8, b: u8) {
    }
}

impl Ranked for u32 {
    open spec fn rank(a: u32, b: u32) -> Rank {
        int_rank(a as int, b as int)
    }

    proof fn rank_reflexive(a: u32) {
    }

    proof fn rank_flips(a: u32, b: u32) {
    }

    proof fn rank_chains(a: u32, b: u32, c: u32) {
    }

    fn against(&self, other: &Self) -> (r: Rank) {
        if *self < *other {
            Rank::Less
        } else if *self == *other {
            Rank::Equal
        } else {
            Rank::Greater
        }
    }
}

impl Linear for u32 {
    proof fn rank_separates(a: u32, b: u32) {
    }
}

impl Ranked for i32 {
    open spec fn rank(a: i32, b: i32) -> Rank {
        int_rank(a as int, b as int)
    }

    proof fn rank_reflexive(a: i32) {
    }

    proof fn rank_flips(a: i32, b: i32) {
    }

    proof fn rank_chains(a: i32, b: i32, c: i32) {
    }

    fn against(&self, other: &Self) -> (r: Rank) {
        if *self < *other {
            Rank::Less
        } else if *self == *other {
            Rank::Equal
        } else {
            Rank::Greater
        }
    }
}

impl Linear for i32 {
    proof fn rank_separates(a: i32, b: i32) {
    }
}

/// Numbers stand to each other as they are less, equal or greater.
pub proof fn law_numbers_in_order(a: int, b: int)
    ensures
        int_rank(a, b) == Rank::Less <==> a < b,
        int_rank(a, b) == Rank::Equal <==> a == b,
        int_rank(a, b) == Rank::Greater <==> a > b,
{
}

/// A text comes before another where they agree up to a place at which it ends, or has the lesser
/// character.
pub proof fn law_texts_in_order(a: Seq<char>, b: Seq<char>, n: int)
    requires
        0 <= n <= a.len(),
        n < b.len(),
        a.take(n) == b.take(n),
        n < a.len() ==> a[n] < b[n],
    ensures
        text_rank(a, b) == Rank::Less,
    decreases n,
{
    if n > 0 {
        assert(a[0] == a.take(n)[0]);
        assert(b[0] == b.take(n)[0]);
        assert(a.drop_first().take(n - 1) =~= a.take(n).drop_first());
        assert(b.drop_first().take(n - 1) =~= b.take(n).drop_first());
        law_texts_in_order(a.drop_first(), b.drop_first(), n - 1);
    }
}

/// Something that is left out comes before something that is given; two that are given stand to each
/// other as they do.
pub proof fn law_left_out_first<T: Ranked>(a: T::V, b: T::V)
    ensures
        <Option<T> as Ranked>::rank(None, None) == Rank::Equal,
        <Option<T> as Ranked>::rank(None, Some(b)) == Rank::Less,
        <Option<T> as Ranked>::rank(Some(a), None) == Rank::Greater,
        <Option<T> as Ranked>::rank(Some(a), Some(b)) == T::rank(a, b),
{
}

/// The later outcome counts only where the earlier one is equal, and each outcome has the name that std
/// gives it.
pub proof fn law_first_outcome_counts(first: Rank, second: Rank)
    ensures
        first == Rank::Equal ==> first.or(second) == second,
        first != Rank::Equal ==> first.or(second) == first,
        Rank::Less.named() is Less,
        Rank::Equal.named() is Equal,
        Rank::Greater.named() is Greater,
{
}

/// How two things stand to each other goes by the names that comparisons give it.
pub proof fn law_rank_is_named(rank: Rank)
    ensures
        rank == Rank::Less <==> rank.named() == Ordering::Less,
        rank == Rank::Equal <==> rank.named() == Ordering::Equal,
        rank == Rank::Greater <==> rank.named() == Ordering::Greater,
{
}

/// The first place where two lists differ decides how they stand to each other; a list stands before one
/// that goes on where it ends.
pub proof fn law_lists_in_order<T: Ranked>(a: Seq<T::V>, b: Seq<T::V>, k: int)
    requires
        0 <= k <= a.len(),
        k <= b.len(),
        forall|i: int| 0 <= i < k ==> T::rank(#[trigger] a[i], b[i]) == Rank::Equal,
    ensures
        k < a.len() && k < b.len() && T::rank(a[k], b[k]) != Rank::Equal ==> seq_rank::<T>(a, b)
            == T::rank(a[k], b[k]),
        k == a.len() && k < b.len() ==> seq_rank::<T>(a, b) == Rank::Less,
        k < a.len() && k == b.len() ==> seq_rank::<T>(a, b) == Rank::Greater,
        k == a.len() && k == b.len() ==> seq_rank::<T>(a, b) == Rank::Equal,
    decreases k,
{
    if k > 0 {
        let (x, y) = (a.drop_first(), b.drop_first());
        assert(T::rank(a[0], b[0]) == Rank::Equal);
        assert forall|i: int| 0 <= i < k - 1 implies T::rank(#[trigger] x[i], y[i]) == Rank::Equal by {
            assert(x[i] == a[i + 1] && y[i] == b[i + 1]);
            assert(T::rank(a[i + 1], b[i + 1]) == Rank::Equal);
        }
        law_lists_in_order::<T>(x, y, k - 1);
    }
}

/// Exchanging the two sides turns before into behind, and back.
pub proof fn law_sides_exchanged(rank: Rank)
    ensures
        rank.flip().flip() == rank,
        rank.flip() == rank <==> rank == Rank::Equal,
{
}

} // verus!
