use vstd::prelude::*;

verus! {

/// A non-empty vector together with one of its elements.
#[derive(Clone, Debug, PartialEq, Eq)]
pub struct ElementOf<T> {
    pub data: Vec<T>,
    pub element: T,
}

/// A non-empty vector together with a value that is none of its elements.
#[derive(Clone, Debug, PartialEq, Eq)]
pub struct NoElementOf<T> {
    pub data: Vec<T>,
    pub element: T,
}

/// A vector whose elements are all negative.
#[derive(Clone, Debug, PartialEq, Eq)]
pub struct AllNegative<T> {
    pub data: Vec<T>,
}

/// A vector whose elements are all positive.
#[derive(Clone, Debug, PartialEq, Eq)]
pub struct AllPositive<T> {
    pub data: Vec<T>,
}

impl<T> ElementOf<T> {
    /// The element occurs in the non-empty vector.
    pub open spec fn wf(&self) -> bool {
        self.data@.len() > 0 && self.data@.contains(self.element)
    }
}

impl<T> NoElementOf<T> {
    /// The element does not occur in the non-empty vector.
    pub open spec fn wf(&self) -> bool {
        self.data@.len() > 0 && !self.data@.contains(self.element)
    }
}

impl AllNegative<i32> {
    /// Every element is below zero.
    pub open spec fn wf(&self) -> bool {
        forall|i: int| 0 <= i < self.data@.len() ==> #[trigger] self.data@[i] < 0
    }
}

impl AllPositive<i32> {
    /// Every element is above zero.
    pub open spec fn wf(&self) -> bool {
        forall|i: int| 0 <= i < self.data@.len() ==> #[trigger] self.data@[i] > 0
    }
}

/// The decimal digits of `n`, most significant first, without leading zeros.
pub open spec fn digits(n: nat) -> Seq<char>
    decreases n,
{
    if n < 10 {
        seq![digit_char(n)]
    } else {
        digits(n / 10) + seq![digit_char(n % 10)]
    }
}

/// The character of the decimal digit `d`.
pub open spec fn digit_char(d: nat) -> char {
    seq!['0', '1', '2', '3', '4', '5', '6', '7', '8', '9'][d as int]
}

/// The decimal rendering of `v`: a minus sign for negative values, then the
/// digits of its magnitude.
pub open spec fn decimal(v: int) -> Seq<char> {
    if v < 0 {
        seq!['-'] + digits((-v) as nat)
    } else {
        digits(v as nat)
    }
}

/// Each element of `s` rendered as a space, its decimal form and a comma.
pub open spec fn entries(s: Seq<i32>) -> Seq<char>
    decreases s.len(),
{
    if s.len() == 0 {
        seq![]
    } else {
        entries(s.drop_last()) + seq![' '] + decimal(s.last() as int) + seq![',']
    }
}

/// The rendering of a vector: its entries between angle brackets, without
/// the comma after the last one.
pub open spec fn listing(s: Seq<i32>) -> Seq<char> {
    seq!['<'] + (if s.len() > 0 {
        entries(s).drop_last()
    } else {
        seq![]
    }) + seq!['>']
}

/// Relies on `str::chars`: the characters of a string, in order.
#[verifier::external_body]
fn chars_of(s: &str) -> (r: Vec<char>)
    ensures
        r@ == s@,
{
    s.chars().collect()
}

/// Relies on `String`'s `FromIterator<char>`: the string of the given
/// characters, in order.
#[verifier::external_body]
fn string_of(chars: &Vec<char>) -> (r: String)
    ensures
        r@ == chars@,
{
    chars.iter().collect()
}

/// Appends the decimal digits of `n` to `out`.
fn push_digits(out: &mut Vec<char>, n: u32)
    ensures
        final(out)@ == old(out)@ + digits(n as nat),
    decreases n,
{
    let table = ['0', '1', '2', '3', '4', '5', '6', '7', '8', '9'];
    if n >= 10 {
        push_digits(out, n / 10);
    }
    let d = (n % 10) as usize;
    assert(table@ == seq!['0', '1', '2', '3', '4', '5', '6', '7', '8', '9']);
    out.push(table[d]);
    proof {
        if n < 10 {
            assert(n % 10 == n);
        }
    }
    assert(final(out)@ =~= old(out)@ + digits(n as nat)) by {
        if n >= 10 {
            assert(digits(n as nat) == digits((n / 10) as nat) + seq![digit_char((n % 10) as nat)]);
        }
    };
}

/// Appends the decimal rendering of `v` to `out`.
fn push_decimal(out: &mut Vec<char>, v: i32)
    ensures
        final(out)@ == old(out)@ + decimal(v as int),
{
    if v < 0 {
        out.push('-');
        let magnitude = (-(v as i64)) as u32;
        push_digits(out, magnitude);
        assert(final(out)@ =~= old(out)@ + decimal(v as int));
    } else {
        push_digits(out, v as u32);
    }
}

/// Appends all of `s` to `out`.
fn push_all(out: &mut Vec<char>, s: &Vec<char>)
    ensures
        final(out)@ == old(out)@ + s@,
{
    let mut i: usize = 0;
    while i < s.len()
        invariant
            i <= s@.len(),
            out@ == old(out)@ + s@.take(i as int),
        decreases s@.len() - i,
    {
        assert(s@.take(i + 1) =~= s@.take(i as int).push(s@[i as int]));
        out.push(s[i]);
        i = i + 1;
    }
    assert(s@.take(s@.len() as int) =~= s@);
}

/// Appends the rendering of `v` to `out`.
fn push_listing(out: &mut Vec<char>, v: &Vec<i32>)
    ensures
        final(out)@ == old(out)@ + listing(v@),
{
    let start = out.len();
    out.push('<');
    let mut i: usize = 0;
    while i < v.len()
        invariant
            i <= v@.len(),
            start == old(out)@.len(),
            out@ == old(out)@ + seq!['<'] + entries(v@.take(i as int)),
        decreases v@.len() - i,
    {
        assert(v@.take(i + 1).drop_last() =~= v@.take(i as int));
        out.push(' ');
        push_decimal(out, v[i]);
        out.push(',');
        assert(out@ =~= old(out)@ + seq!['<'] + entries(v@.take(i + 1)));
        i = i + 1;
    }
    assert(v@.take(v@.len() as int) =~= v@);
    if v.len() > 0 {
        out.pop();
    }
    out.push('>');
    assert(out@ =~= old(out)@ + listing(v@));
}

/// Renders the elements of `vec` between angle brackets, each after a space
/// and separated by commas, as in `< 1, -2, 3>`; the empty vector gives `<>`.
pub fn fmt_vec(vec: &Vec<i32>) -> (r: String)
    ensures
        r@ == listing(vec@),
{
    let mut out: Vec<char> = Vec::new();
    push_listing(&mut out, vec);
    assert(out@ =~= listing(vec@));
    string_of(&out)
}

impl ElementOf<i32> {
    /// Describes the element and the vector, as in `3 element of << 1, 3>>`.
    pub fn describe(&self) -> (r: String)
        ensures
            r@ == decimal(self.element as int) + " element of <"@ + listing(self.data@) + ">"@,
    {
        let mut out: Vec<char> = Vec::new();
        push_decimal(&mut out, self.element);
        push_all(&mut out, &chars_of(" element of <"));
        push_listing(&mut out, &self.data);
        push_all(&mut out, &chars_of(">"));
        assert(out@ =~= decimal(self.element as int) + " element of <"@ + listing(self.data@)
            + ">"@);
        string_of(&out)
    }
}

impl NoElementOf<i32> {
    /// Describes the value and the vector, as in `2 not an element of << 1, 3>>`.
    pub fn describe(&self) -> (r: String)
        ensures
            r@ == decimal(self.element as int) + " not an element of <"@ + listing(self.data@)
                + ">"@,
    {
        let mut out: Vec<char> = Vec::new();
        push_decimal(&mut out, self.element);
        push_all(&mut out, &chars_of(" not an element of <"));
        push_listing(&mut out, &self.data);
        push_all(&mut out, &chars_of(">"));
        assert(out@ =~= decimal(self.element as int) + " not an element of <"@ + listing(
            self.data@,
        ) + ">"@);
        string_of(&out)
    }
}

impl AllNegative<i32> {
    /// Renders the vector, as in `< -1, -2>`.
    pub fn describe(&self) -> (r: String)
        ensures
            r@ == listing(self.data@),
    {
        fmt_vec(&self.data)
    }
}

impl AllPositive<i32> {
    /// Renders the vector, as in `< 1, 2>`.
    pub fn describe(&self) -> (r: String)
        ensures
            r@ == listing(self.data@),
    {
        fmt_vec(&self.data)
    }
}

} // verus!
