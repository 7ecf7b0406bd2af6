//! Three-way comparison: its outcomes, the operators read off them, and the
//! lexicographic order of sequences with the laws it keeps.

use vstd::prelude::*;

verus! {

/// The outcome of comparing two values of a totally ordered type.
#[derive(Clone, Copy, Debug, PartialEq, Eq, Structural)]
pub enum Order {
    Less,
    Equal,
    Greater,
}

impl Order {
    /// The outcome with the two sides exchanged.
    pub open spec fn flip(self) -> Order {
        match self {
            Order::Less => Order::Greater,
            Order::Equal => Order::Equal,
            Order::Greater => Order::Less,
        }
    }

    /// Lexicographic combination: `self` decides unless it is `Equal`.
    pub open spec fn and_then(self, next: Order) -> Order {
        match self {
            Order::Equal => next,
            _ => self,
        }
    }
}

/// The six relations between two values that a comparison can be asked for.
#[derive(Clone, Copy, Debug, PartialEq, Eq, Structural)]
pub enum CompareOp {
    Lt,
    Le,
    Eq,
    Ne,
    Gt,
    Ge,
}

impl CompareOp {
    /// Whether the relation holds between two values that compare as `order`.
    pub open spec fn holds(self, order: Order) -> bool {
        match self {
            CompareOp::Lt => order == Order::Less,
            CompareOp::Le => order != Order::Greater,
            CompareOp::Eq => order == Order::Equal,
            CompareOp::Ne => order != Order::Equal,
            CompareOp::Gt => order == Order::Greater,
            CompareOp::Ge => order != Order::Less,
        }
    }

    /// Whether the relation holds between two values that compare as `order`.
    pub fn test(self, order: Order) -> (b: bool)
        ensures
            b == self.holds(order),
    {
        match self {
            CompareOp::Lt => order == Order::Less,
            CompareOp::Le => order != Order::Greater,
            CompareOp::Eq => order == Order::Equal,
            CompareOp::Ne => order != Order::Equal,
            CompareOp::Gt => order == Order::Greater,
            CompareOp::Ge => order != Order::Less,
        }
    }
}

/// How two integers compare.
pub open spec fn compare_int(a: int, b: int) -> Order {
    if a < b {
        Order::Less
    } else if a == b {
        Order::Equal
    } else {
        Order::Greater
    }
}

/// How two characters compare: by their code points.
pub open spec fn compare_char(a: char, b: char) -> Order {
    compare_int(a as int, b as int)
}

/// The order of the characters, as a function.
pub open spec fn char_order() -> spec_fn(char, char) -> Order {
    |a: char, b: char| compare_char(a, b)
}

/// Whether `f` is a total order: exchanging the sides flips the outcome, only a
/// value and itself compare as equal, and `Less` is transitive.
pub open spec fn total_order<T>(f: spec_fn(T, T) -> Order) -> bool {
    &&& forall|a: T, b: T| #[trigger] f(b, a) == f(a, b).flip()
    &&& forall|a: T, b: T| #[trigger] f(a, b) == Order::Equal <==> a == b
    &&& forall|a: T, b: T, c: T|
        #[trigger] f(a, b) == Order::Less && #[trigger] f(b, c) == Order::Less ==> f(a, c)
            == Order::Less
}

/// The lexicographic order of two sequences whose items compare by `f`: the
/// first difference decides, and a sequence comes before those that extend it.
pub open spec fn compare_seq<T>(a: Seq<T>, b: Seq<T>, f: spec_fn(T, T) -> Order) -> Order
    decreases a.len(),
{
    if a.len() == 0 && b.len() == 0 {
        Order::Equal
    } else if a.len() == 0 {
        Order::Less
    } else if b.len() == 0 {
        Order::Greater
    } else {
        f(a[0], b[0]).and_then(compare_seq(a.drop_first(), b.drop_first(), f))
    }
}

/// How two optional values compare: none comes before any value.
pub open spec fn compare_option<T>(a: Option<T>, b: Option<T>, f: spec_fn(T, T) -> Order) -> Order {
    match (a, b) {
        (None, None) => Order::Equal,
        (None, Some(_)) => Order::Less,
        (Some(_), None) => Order::Greater,
        (Some(x), Some(y)) => f(x, y),
    }
}

/// Exchanging two sequences exchanges `Less` and `Greater`.
pub proof fn lemma_compare_seq_flip<T>(a: Seq<T>, b: Seq<T>, f: spec_fn(T, T) -> Order)
    requires
        total_order(f),
    ensures
        compare_seq(b, a, f) == compare_seq(a, b, f).flip(),
    decreases a.len(),
{
    if a.len() > 0 && b.len() > 0 {
        lemma_compare_seq_flip(a.drop_first(), b.drop_first(), f);
        assert(f(b[0], a[0]) == f(a[0], b[0]).flip());
    }
}

/// Only a sequence and itself compare as equal.
pub proof fn lemma_compare_seq_equal<T>(a: Seq<T>, b: Seq<T>, f: spec_fn(T, T) -> Order)
    requires
        total_order(f),
    ensures
        compare_seq(a, b, f) == Order::Equal <==> a == b,
    decreases a.len(),
{
    if a.len() > 0 && b.len() > 0 {
        lemma_compare_seq_equal(a.drop_first(), b.drop_first(), f);
        assert(f(a[0], b[0]) == Order::Equal <==> a[0] == b[0]);
        if a[0] == b[0] && a.drop_first() == b.drop_first() {
            assert(a == seq![a[0]] + a.drop_first());
            assert(b == seq![b[0]] + b.drop_first());
        }
    } else if a.len() == 0 && b.len() == 0 {
        assert(a == b);
    }
}

/// `Less` is transitive on sequences.
pub proof fn lemma_compare_seq_transitive<T>(
    a: Seq<T>,
    b: Seq<T>,
    c: Seq<T>,
    f: spec_fn(T, T) -> Order,
)
    requires
        total_order(f),
        compare_seq(a, b, f) == Order::Less,
        compare_seq(b, c, f) == Order::Less,
    ensures
        compare_seq(a, c, f) == Order::Less,
    decreases a.len(),
{
    if a.len() > 0 && b.len() > 0 && c.len() > 0 {
        let x = f(a[0], b[0]);
        let y = f(b[0], c[0]);
        assert(x == Order::Equal <==> a[0] == b[0]);
        assert(y == Order::Equal <==> b[0] == c[0]);
        if x == Order::Equal && y == Order::Equal {
            lemma_compare_seq_transitive(a.drop_first(), b.drop_first(), c.drop_first(), f);
        } else if x == Order::Less && y == Order::Less {
            assert(f(a[0], c[0]) == Order::Less);
        }
    }
}

/// The order of the characters is total.
pub proof fn lemma_char_order_total()
    ensures
        total_order(char_order()),
{
}

} // verus!
