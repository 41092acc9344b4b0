//! Composite segment keys: `<task>#<index>`, and their parsing back.

use vstd::prelude::*;

verus! {

/// The decimal digit character for `d < 10`.
pub open spec fn digit_char(d: nat) -> char {
    if d == 0 {
        '0'
    } else if d == 1 {
        '1'
    } else if d == 2 {
        '2'
    } else if d == 3 {
        '3'
    } else if d == 4 {
        '4'
    } else if d == 5 {
        '5'
    } else if d == 6 {
        '6'
    } else if d == 7 {
        '7'
    } else if d == 8 {
        '8'
    } else {
        '9'
    }
}

/// Decimal representation of `n`, without leading zeros.
pub open spec fn decimal_of(n: nat) -> Seq<char>
    decreases n,
{
    if n < 10 {
        seq![digit_char(n)]
    } else {
        decimal_of(n / 10).push(digit_char(n % 10))
    }
}

/// The composite key of one segment of a task.
pub open spec fn segment_key_text(task_key: Seq<char>, index: nat) -> Seq<char> {
    task_key.push('#') + decimal_of(index)
}

/// The text before the first `#` and the text after it, if there is a `#`.
pub open spec fn split_first_hash(s: Seq<char>) -> Option<(Seq<char>, Seq<char>)>
    decreases s.len(),
{
    if s.len() == 0 {
        None
    } else if s[0] == '#' {
        Some((Seq::empty(), s.drop_first()))
    } else {
        match split_first_hash(s.drop_first()) {
            Some(parts) => Some((seq![s[0]] + parts.0, parts.1)),
            None => None,
        }
    }
}

/// Shape of a proof result's task id.
pub enum TaskIdShape {
    /// No separator: the id names a whole task.
    Whole(Seq<char>),
    /// One separator: task id and split id.
    Segment(Seq<char>, Seq<char>),
    /// More than one separator.
    Malformed,
}

pub open spec fn task_id_shape(s: Seq<char>) -> TaskIdShape {
    match split_first_hash(s) {
        None => TaskIdShape::Whole(s),
        Some(parts) => if split_first_hash(parts.1) is None {
            TaskIdShape::Segment(parts.0, parts.1)
        } else {
            TaskIdShape::Malformed
        },
    }
}

/// Parsed form of a proof result's task id.
#[derive(Clone, Debug, PartialEq, Eq)]
pub enum ParsedTaskId {
    Whole(String),
    Segment { task_id: String, split_id: String },
    Malformed,
}

impl View for ParsedTaskId {
    type V = TaskIdShape;

    open spec fn view(&self) -> TaskIdShape {
        match self {
            ParsedTaskId::Whole(t) => TaskIdShape::Whole(t@),
            ParsedTaskId::Segment { task_id, split_id } => TaskIdShape::Segment(task_id@, split_id@),
            ParsedTaskId::Malformed => TaskIdShape::Malformed,
        }
    }
}

proof fn lemma_split_at_first_hash(s: Seq<char>, p: int)
    requires
        0 <= p < s.len(),
        s[p] == '#',
        forall|j: int| 0 <= j < p ==> s[j] != '#',
    ensures
        split_first_hash(s) == Some((s.subrange(0, p), s.subrange(p + 1, s.len() as int))),
    decreases p,
{
    if p == 0 {
        assert(s.subrange(0, 0) =~= Seq::<char>::empty());
        assert(s.drop_first() =~= s.subrange(1, s.len() as int));
    } else {
        let t = s.drop_first();
        assert forall|j: int| 0 <= j < p - 1 implies t[j] != '#' by {
            assert(t[j] == s[j + 1]);
        }
        lemma_split_at_first_hash(t, p - 1);
        assert(seq![s[0]] + t.subrange(0, p - 1) =~= s.subrange(0, p));
        assert(t.subrange(p, t.len() as int) =~= s.subrange(p + 1, s.len() as int));
    }
}

/// Text without a `#` has no separator to split at.
pub proof fn lemma_no_separator(s: Seq<char>)
    requires
        forall|j: int| 0 <= j < s.len() ==> s[j] != '#',
    ensures
        task_id_shape(s) == TaskIdShape::Whole(s),
{
    lemma_no_hash(s);
}

proof fn lemma_no_hash(s: Seq<char>)
    requires
        forall|j: int| 0 <= j < s.len() ==> s[j] != '#',
    ensures
        split_first_hash(s) is None,
    decreases s.len(),
{
    if s.len() > 0 {
        let t = s.drop_first();
        assert forall|j: int| 0 <= j < t.len() implies t[j] != '#' by {
            assert(t[j] == s[j + 1]);
        }
        lemma_no_hash(t);
    }
}

proof fn lemma_decimal_is_digits(n: nat)
    ensures
        decimal_of(n).len() >= 1,
        forall|j: int| 0 <= j < decimal_of(n).len() ==> #[trigger] decimal_of(n)[j] != '#',
        n >= 10 ==> decimal_of(n).len() >= 2,
    decreases n,
{
    if n >= 10 {
        lemma_decimal_is_digits(n / 10);
        let prefix = decimal_of(n / 10);
        assert forall|j: int| 0 <= j < decimal_of(n).len() implies #[trigger] decimal_of(n)[j]
            != '#' by {
            if j < prefix.len() {
                assert(decimal_of(n)[j] == prefix[j]);
            }
        }
    }
}

/// Different numbers have different decimal texts.
pub proof fn lemma_decimal_injective(a: nat, b: nat)
    requires
        decimal_of(a) == decimal_of(b),
    ensures
        a == b,
    decreases a,
{
    lemma_decimal_is_digits(a);
    lemma_decimal_is_digits(b);
    if a >= 10 && b >= 10 {
        let da = decimal_of(a);
        assert(decimal_of(a / 10) =~= da.drop_last());
        assert(decimal_of(b / 10) =~= decimal_of(b).drop_last());
        lemma_decimal_injective(a / 10, b / 10);
        assert(digit_char(a % 10) == da.last());
        assert(digit_char(b % 10) == decimal_of(b).last());
    } else if a < 10 && b < 10 {
        assert(decimal_of(a)[0] == digit_char(a));
        assert(decimal_of(b)[0] == digit_char(b));
    }
}

/// Composing a segment key and parsing it back gives the task key and the
/// segment index again, for every task key without a `#`.
pub proof fn lemma_segment_key_round_trip(task_key: Seq<char>, index: nat)
    requires
        forall|j: int| 0 <= j < task_key.len() ==> task_key[j] != '#',
    ensures
        task_id_shape(segment_key_text(task_key, index)) == TaskIdShape::Segment(
            task_key,
            decimal_of(index),
        ),
        forall|other: nat| decimal_of(other) == decimal_of(index) ==> other == index,
{
    let s = segment_key_text(task_key, index);
    let p = task_key.len() as int;
    assert(s[p] == '#');
    assert forall|j: int| 0 <= j < p implies s[j] != '#' by {
        assert(s[j] == task_key[j]);
    }
    lemma_split_at_first_hash(s, p);
    assert(s.subrange(0, p) =~= task_key);
    assert(s.subrange(p + 1, s.len() as int) =~= decimal_of(index));
    lemma_decimal_is_digits(index);
    lemma_no_hash(decimal_of(index));
    assert forall|other: nat| decimal_of(other) == decimal_of(index) implies other == index by {
        lemma_decimal_injective(other, index);
    }
}

fn digit_str(d: u32) -> (r: &'static str)
    requires
        d < 10,
    ensures
        r@ == seq![digit_char(d as nat)],
{
    proof {
        reveal_strlit("0");
        reveal_strlit("1");
        reveal_strlit("2");
        reveal_strlit("3");
        reveal_strlit("4");
        reveal_strlit("5");
        reveal_strlit("6");
        reveal_strlit("7");
        reveal_strlit("8");
        reveal_strlit("9");
    }
    if d == 0 {
        "0"
    } else if d == 1 {
        "1"
    } else if d == 2 {
        "2"
    } else if d == 3 {
        "3"
    } else if d == 4 {
        "4"
    } else if d == 5 {
        "5"
    } else if d == 6 {
        "6"
    } else if d == 7 {
        "7"
    } else if d == 8 {
        "8"
    } else {
        "9"
    }
}

/// Decimal text of a segment index.
pub fn decimal_string(n: u32) -> (r: String)
    ensures
        r@ == decimal_of(n as nat),
    decreases n,
{
    if n < 10 {
        digit_str(n).to_owned()
    } else {
        let mut s = decimal_string(n / 10);
        s.append(digit_str(n % 10));
        s
    }
}

/// The composite key `<task_key>#<index>` of one segment.
pub fn compose_segment_key(task_key: &str, index: u32) -> (r: String)
    ensures
        r@ == segment_key_text(task_key@, index as nat),
{
    proof {
        reveal_strlit("#");
    }
    let mut s = task_key.to_owned();
    s.append("#");
    let digits = decimal_string(index);
    s.append(digits.as_str());
    s
}

/// Splits a proof result's task id at its `#` separators.
pub fn parse_task_id(task_id: &str) -> (r: ParsedTaskId)
    ensures
        r@ == task_id_shape(task_id@),
{
    let n = task_id.unicode_len();
    let mut i: usize = 0;
    while i < n && task_id.get_char(i) != '#'
        invariant
            n == task_id@.len(),
            i <= n,
            forall|j: int| 0 <= j < i ==> task_id@[j] != '#',
        decreases n - i,
    {
        i = i + 1;
    }
    if i == n {
        proof {
            lemma_no_hash(task_id@);
        }
        return ParsedTaskId::Whole(task_id.to_owned());
    }
    let head = task_id.substring_char(0, i);
    let tail = task_id.substring_char(i + 1, n);
    proof {
        lemma_split_at_first_hash(task_id@, i as int);
    }
    let m = tail.unicode_len();
    let mut j: usize = 0;
    while j < m
        invariant
            split_first_hash(task_id@) == Some((head@, tail@)),
            m == tail@.len(),
            j <= m,
            forall|q: int| 0 <= q < j ==> tail@[q] != '#',
        decreases m - j,
    {
        if tail.get_char(j) == '#' {
            proof {
                lemma_split_at_first_hash(tail@, j as int);
            }
            return ParsedTaskId::Malformed;
        }
        j = j + 1;
    }
    proof {
        lemma_no_hash(tail@);
    }
    ParsedTaskId::Segment { task_id: head.to_owned(), split_id: tail.to_owned() }
}

} // verus!
