use vstd::prelude::*;
use vstd::string::StringExecFns;

verus! {

/// A configuration value that names no variant: which setting, the value
/// given, and for each variant the tokens that select it.
#[derive(Debug)]
pub struct UnknownError {
    pub name: String,
    pub value: String,
    pub expected: Vec<(Vec<String>, String)>,
}

/// A required setting that was never given; holds the setting's name.
#[derive(Debug)]
pub struct MissingFieldError(pub String);

/// Why a stitching run or one of its steps cannot go on.
#[derive(Debug, Clone, Copy, PartialEq, Eq, Structural)]
pub enum StitchError {
    /// Fewer than two images to stitch.
    TooFewImages,
    /// The window is empty, or an image has fewer rows than the window once
    /// its crop margin is taken off.
    NotEnoughRows,
    /// The crop margin leaves no pixels to search or to keep.
    CropTooLarge,
    /// An offset that the two images cannot satisfy.
    OffsetOutOfRange,
    /// A composite too large for this machine.
    TooLarge,
    /// A cumulative position outside the range of `i32`.
    PositionOverflow,
}

/// Labels of the variants of a configuration setting, each with its tokens.
pub open spec fn expected_view(e: Seq<(Vec<String>, String)>) -> Seq<(Seq<Seq<char>>, Seq<char>)> {
    e.map_values(|p: (Vec<String>, String)| (p.0@.map_values(|s: String| s@), p.1@))
}

/// The tokens separated by `" | "`.
pub open spec fn joined(items: Seq<Seq<char>>) -> Seq<char>
    decreases items.len(),
{
    if items.len() == 0 {
        Seq::empty()
    } else if items.len() == 1 {
        items[0]
    } else {
        joined(items.drop_last()) + " | "@ + items.last()
    }
}

/// One line per variant: `"\n- "`, its tokens, `" => "`, its label and a
/// full stop.
pub open spec fn variants_text(e: Seq<(Seq<Seq<char>>, Seq<char>)>) -> Seq<char>
    decreases e.len(),
{
    if e.len() == 0 {
        Seq::empty()
    } else {
        variants_text(e.drop_last()) + "\n- "@ + joined(e.last().0) + " => "@ + e.last().1 + "."@
    }
}

/// The description of an unknown configuration value.
pub open spec fn unknown_text(name: Seq<char>, value: Seq<char>, expected: Seq<(Seq<Seq<char>>, Seq<char>)>) -> Seq<char> {
    "Unknown "@ + name + " variant "@ + value + ". \nexpected: "@ + variants_text(expected)
}

fn append_joined(out: &mut String, items: &Vec<String>)
    ensures
        final(out)@ == old(out)@ + joined(items@.map_values(|s: String| s@)),
{
    let ghost base = out@;
    let ghost all = items@.map_values(|s: String| s@);
    let mut k: usize = 0;
    while k < items.len()
        invariant
            k <= items@.len(),
            all == items@.map_values(|s: String| s@),
            out@ == base + joined(all.subrange(0, k as int)),
        decreases items@.len() - k,
    {
        let ghost before = out@;
        if k > 0 {
            out.append(" | ");
        }
        out.append(items[k].as_str());
        proof {
            let next = all.subrange(0, k + 1);
            assert(next.drop_last() =~= all.subrange(0, k as int));
            if k == 0 {
                assert(next.len() == 1);
                assert(joined(all.subrange(0, 0)) =~= Seq::<char>::empty());
                assert(out@ =~= base + joined(next));
            } else {
                assert(out@ =~= base + joined(next));
            }
        }
        k = k + 1;
    }
    assert(all.subrange(0, items@.len() as int) =~= all);
}

impl UnknownError {
    /// A description of the error that lists, for each variant, its tokens.
    pub fn message(&self) -> (r: String)
        ensures
            r@ == unknown_text(self.name@, self.value@, expected_view(self.expected@)),
    {
        let mut out = "Unknown ".to_owned();
        out.append(self.name.as_str());
        out.append(" variant ");
        out.append(self.value.as_str());
        out.append(". \nexpected: ");
        let ghost base = out@;
        let ghost all = expected_view(self.expected@);
        let mut i: usize = 0;
        while i < self.expected.len()
            invariant
                i <= self.expected@.len(),
                all == expected_view(self.expected@),
                base == "Unknown "@ + self.name@ + " variant "@ + self.value@ + ". \nexpected: "@,
                out@ == base + variants_text(all.subrange(0, i as int)),
            decreases self.expected@.len() - i,
        {
            out.append("\n- ");
            append_joined(&mut out, &self.expected[i].0);
            out.append(" => ");
            out.append(self.expected[i].1.as_str());
            out.append(".");
            proof {
                let next = all.subrange(0, i + 1);
                assert(next.drop_last() =~= all.subrange(0, i as int));
                assert(out@ =~= base + variants_text(next));
            }
            i = i + 1;
        }
        assert(all.subrange(0, self.expected@.len() as int) =~= all);
        assert(out@ =~= unknown_text(self.name@, self.value@, all));
        out
    }
}

impl MissingFieldError {
    /// A description of the error that names the missing setting.
    pub fn message(&self) -> (r: String)
        ensures
            r@ == "Did not set the field \""@ + self.0@ + "\" when building"@,
    {
        let mut out = "Did not set the field \"".to_owned();
        out.append(self.0.as_str());
        out.append("\" when building");
        out
    }
}

} // verus!
