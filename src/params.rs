use crate::error::{expected_view, UnknownError};
use vstd::prelude::*;
use vstd::string::StrSliceExecFns;

verus! {

/// Whether `s` and `t` hold the same characters.
pub fn str_is(s: &str, t: &str) -> (r: bool)
    ensures
        r == (s@ == t@),
{
    let n = s.unicode_len();
    if n != t.unicode_len() {
        return false;
    }
    let mut i: usize = 0;
    while i < n
        invariant
            n == s@.len(),
            n == t@.len(),
            i <= n,
            s@.subrange(0, i as int) == t@.subrange(0, i as int),
        decreases n - i,
    {
        if s.get_char(i) != t.get_char(i) {
            return false;
        }
        assert(s@.subrange(0, i + 1) =~= s@.subrange(0, i as int).push(s@[i as int]));
        assert(t@.subrange(0, i + 1) =~= t@.subrange(0, i as int).push(t@[i as int]));
        i = i + 1;
    }
    assert(s@ =~= s@.subrange(0, n as int));
    assert(t@ =~= t@.subrange(0, n as int));
    true
}

/// Whether `s` is one of the four tokens.
pub open spec fn is_one_of(s: Seq<char>, a: &str, b: &str, c: &str, d: &str) -> bool {
    s == a@ || s == b@ || s == c@ || s == d@
}

fn one_of(s: &str, a: &str, b: &str, c: &str, d: &str) -> (r: bool)
    ensures
        r == is_one_of(s@, a, b, c, d),
{
    str_is(s, a) || str_is(s, b) || str_is(s, c) || str_is(s, d)
}

/// The four tokens and the label of one variant, as an entry of
/// `UnknownError::expected`.
fn variant_tokens(a: &str, b: &str, c: &str, d: &str, label: &str) -> (r: (Vec<String>, String))
    ensures
        r.0@.map_values(|s: String| s@) == seq![a@, b@, c@, d@],
        r.1@ == label@,
{
    let v = vec![a.to_owned(), b.to_owned(), c.to_owned(), d.to_owned()];
    assert(v@.map_values(|s: String| s@) =~= seq![a@, b@, c@, d@]);
    (v, label.to_owned())
}

/// Whether the pixels themselves or their edge-magnitude maps are compared.
#[derive(Debug, Clone, Copy, PartialEq, Eq, Structural)]
pub enum MatchMode {
    Normal,
    Edges,
}

/// The axis along which two images overlap.
#[derive(Debug, Clone, Copy, PartialEq, Eq, Structural)]
pub enum CheckDirection {
    /// The second image continues the first downwards.
    Vertical,
    /// The second image continues the first to the right.
    Horizontal,
    /// Downwards, with a free horizontal shift between the two.
    Sideways,
}

/// Whether the input order already gives the adjacency of the images.
#[derive(Debug, Clone, Copy, PartialEq, Eq, Structural)]
pub enum Order {
    Ordered,
    Unordered,
}

impl MatchMode {
    /// Reads `n`, `N`, `Normal`, `normal`, `e`, `E`, `Edges` or `edges`.
    pub fn from_str(s: &str) -> (r: Result<MatchMode, UnknownError>)
        ensures
            is_one_of(s@, "n", "N", "Normal", "normal") ==> r == Ok::<MatchMode, UnknownError>(MatchMode::Normal),
            !is_one_of(s@, "n", "N", "Normal", "normal") && is_one_of(s@, "e", "E", "Edges", "edges") ==> r == Ok::<MatchMode, UnknownError>(MatchMode::Edges),
            r is Err <==> !is_one_of(s@, "n", "N", "Normal", "normal") && !is_one_of(s@, "e", "E", "Edges", "edges"),
            r matches Err(e) ==> e.name@ == "MatchMode"@ && e.value@ == s@
                && expected_view(e.expected@) == seq![
                    (seq!["n"@, "N"@, "Normal"@, "normal"@], "Normal"@),
                    (seq!["e"@, "E"@, "Edges"@, "edges"@], "Edges"@),
                ],
    {
        if one_of(s, "n", "N", "Normal", "normal") {
            Ok(MatchMode::Normal)
        } else if one_of(s, "e", "E", "Edges", "edges") {
            Ok(MatchMode::Edges)
        } else {
            let expected = vec![
                variant_tokens("n", "N", "Normal", "normal", "Normal"),
                variant_tokens("e", "E", "Edges", "edges", "Edges"),
            ];
            assert(expected_view(expected@) =~= seq![
                (seq!["n"@, "N"@, "Normal"@, "normal"@], "Normal"@),
                (seq!["e"@, "E"@, "Edges"@, "edges"@], "Edges"@),
            ]);
            Err(UnknownError { name: "MatchMode".to_owned(), value: s.to_owned(), expected })
        }
    }
}

impl CheckDirection {
    /// Reads `v`, `V`, `Vertical`, `vertical`, `h`, `H`, `Horizontal`,
    /// `horizontal`, `s`, `S`, `Sideways` or `sideways`.
    pub fn from_str(s: &str) -> (r: Result<CheckDirection, UnknownError>)
        ensures
            is_one_of(s@, "v", "V", "Vertical", "vertical") ==> r == Ok::<CheckDirection, UnknownError>(CheckDirection::Vertical),
            !is_one_of(s@, "v", "V", "Vertical", "vertical") && is_one_of(s@, "h", "H", "Horizontal", "horizontal") ==> r == Ok::<CheckDirection, UnknownError>(CheckDirection::Horizontal),
            !is_one_of(s@, "v", "V", "Vertical", "vertical") && !is_one_of(s@, "h", "H", "Horizontal", "horizontal")
                && is_one_of(s@, "s", "S", "Sideways", "sideways") ==> r == Ok::<CheckDirection, UnknownError>(CheckDirection::Sideways),
            r is Err <==> !is_one_of(s@, "v", "V", "Vertical", "vertical")
                && !is_one_of(s@, "h", "H", "Horizontal", "horizontal")
                && !is_one_of(s@, "s", "S", "Sideways", "sideways"),
            r matches Err(e) ==> e.name@ == "CheckDirection"@ && e.value@ == s@
                && expected_view(e.expected@) == seq![
                    (seq!["v"@, "V"@, "Vertical"@, "vertical"@], "Vertical"@),
                    (seq!["h"@, "H"@, "Horizontal"@, "horizontal"@], "Horizontal"@),
                    (seq!["s"@, "S"@, "Sideways"@, "sideways"@], "Sideways"@),
                ],
    {
        if one_of(s, "v", "V", "Vertical", "vertical") {
            Ok(CheckDirection::Vertical)
        } else if one_of(s, "h", "H", "Horizontal", "horizontal") {
            Ok(CheckDirection::Horizontal)
        } else if one_of(s, "s", "S", "Sideways", "sideways") {
            Ok(CheckDirection::Sideways)
        } else {
            let expected = vec![
                variant_tokens("v", "V", "Vertical", "vertical", "Vertical"),
                variant_tokens("h", "H", "Horizontal", "horizontal", "Horizontal"),
                variant_tokens("s", "S", "Sideways", "sideways", "Sideways"),
            ];
            assert(expected_view(expected@) =~= seq![
                (seq!["v"@, "V"@, "Vertical"@, "vertical"@], "Vertical"@),
                (seq!["h"@, "H"@, "Horizontal"@, "horizontal"@], "Horizontal"@),
                (seq!["s"@, "S"@, "Sideways"@, "sideways"@], "Sideways"@),
            ]);
            Err(UnknownError { name: "CheckDirection".to_owned(), value: s.to_owned(), expected })
        }
    }
}

impl Order {
    /// Reads `o`, `O`, `Ordered`, `ordered`, `u`, `U`, `Unordered` or
    /// `unordered`.
    pub fn from_str(s: &str) -> (r: Result<Order, UnknownError>)
        ensures
            is_one_of(s@, "o", "O", "Ordered", "ordered") ==> r == Ok::<Order, UnknownError>(Order::Ordered),
            !is_one_of(s@, "o", "O", "Ordered", "ordered") && is_one_of(s@, "u", "U", "Unordered", "unordered") ==> r == Ok::<Order, UnknownError>(Order::Unordered),
            r is Err <==> !is_one_of(s@, "o", "O", "Ordered", "ordered") && !is_one_of(s@, "u", "U", "Unordered", "unordered"),
            r matches Err(e) ==> e.name@ == "Order"@ && e.value@ == s@
                && expected_view(e.expected@) == seq![
                    (seq!["o"@, "O"@, "Ordered"@, "ordered"@], "Ordered"@),
                    (seq!["u"@, "U"@, "Unordered"@, "unordered"@], "Unordered"@),
                ],
    {
        if one_of(s, "o", "O", "Ordered", "ordered") {
            Ok(Order::Ordered)
        } else if one_of(s, "u", "U", "Unordered", "unordered") {
            Ok(Order::Unordered)
        } else {
            let expected = vec![
                variant_tokens("o", "O", "Ordered", "ordered", "Ordered"),
                variant_tokens("u", "U", "Unordered", "unordered", "Unordered"),
            ];
            assert(expected_view(expected@) =~= seq![
                (seq!["o"@, "O"@, "Ordered"@, "ordered"@], "Ordered"@),
                (seq!["u"@, "U"@, "Unordered"@, "unordered"@], "Unordered"@),
            ]);
            Err(UnknownError { name: "Order".to_owned(), value: s.to_owned(), expected })
        }
    }
}

impl core::str::FromStr for MatchMode {
    type Err = UnknownError;

    fn from_str(s: &str) -> Result<MatchMode, UnknownError> {
        MatchMode::from_str(s)
    }
}

impl core::str::FromStr for CheckDirection {
    type Err = UnknownError;

    fn from_str(s: &str) -> Result<CheckDirection, UnknownError> {
        CheckDirection::from_str(s)
    }
}

impl core::str::FromStr for Order {
    type Err = UnknownError;

    fn from_str(s: &str) -> Result<Order, UnknownError> {
        Order::from_str(s)
    }
}

/// Where a second image is placed relative to a first, in pixels.
#[derive(Debug, Clone, Copy, Default, PartialEq, Eq, Structural)]
pub struct Position {
    pub x: i32,
    pub y: i32,
}

impl Position {
    /// Whether the component-wise sum with `other` stays within `i32`.
    pub open spec fn can_add(self, other: Position) -> bool {
        i32::MIN <= self.x + other.x <= i32::MAX && i32::MIN <= self.y + other.y <= i32::MAX
    }

    pub open spec fn plus(self, other: Position) -> Position {
        Position { x: (self.x + other.x) as i32, y: (self.y + other.y) as i32 }
    }

    /// The component-wise sum.
    pub fn add(self, other: Position) -> (r: Position)
        requires
            self.can_add(other),
        ensures
            r == self.plus(other),
            r.x == self.x + other.x,
            r.y == self.y + other.y,
    {
        Position { x: self.x + other.x, y: self.y + other.y }
    }

    /// Adds `other` in place.
    pub fn add_assign(&mut self, other: Position)
        requires
            old(self).can_add(other),
        ensures
            *final(self) == old(self).plus(other),
    {
        self.x = self.x + other.x;
        self.y = self.y + other.y;
    }

    /// The component-wise sum, or `None` when it leaves the range of `i32`.
    pub fn checked_add(self, other: Position) -> (r: Option<Position>)
        ensures
            r is Some <==> self.can_add(other),
            r matches Some(p) ==> p == self.plus(other),
    {
        let x = self.x as i64 + other.x as i64;
        let y = self.y as i64 + other.y as i64;
        if x < i32::MIN as i64 || x > i32::MAX as i64 || y < i32::MIN as i64 || y > i32::MAX as i64 {
            None
        } else {
            Some(Position { x: x as i32, y: y as i32 })
        }
    }
}

/// The outcome of one overlap search: how well the best offset matched,
/// whether the two images were compared in reverse roles, and the offset.
#[derive(Debug, Clone, Copy, Default, PartialEq, Eq, Structural)]
pub struct OverlapScore {
    pub score: u64,
    pub flipped: bool,
    pub position: Position,
}

} // verus!
