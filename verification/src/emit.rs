//! The recurring shapes of the generated module: the variants of a type, the items of a
//! list, and the branches of a case distinction.

use crate::geo::Degrees;
use vstd::prelude::*;
use vstd::string::*;

verus! {

/// A piece of the generated module: text, or a number that is written out with three
/// decimal places where the module is written.
#[derive(Debug, PartialEq, Eq)]
pub enum Fragment {
    /// Text, to be written as it is.
    Text(String),
    /// A coordinate value.
    Degrees(Degrees),
    /// The ratio of a width to a height, both in pixels.
    Ratio(u32, u32),
}

/// The mathematical value of a [`Fragment`].
pub enum FragmentView {
    Text(Seq<char>),
    Degrees(Degrees),
    Ratio(u32, u32),
}

impl View for Fragment {
    type V = FragmentView;

    open spec fn view(&self) -> FragmentView {
        match self {
            Fragment::Text(text) => FragmentView::Text(text@),
            Fragment::Degrees(degrees) => FragmentView::Degrees(*degrees),
            Fragment::Ratio(width, height) => FragmentView::Ratio(*width, *height),
        }
    }
}

impl DeepView for Fragment {
    type V = FragmentView;

    open spec fn deep_view(&self) -> FragmentView {
        self@
    }
}

/// The variants of a type declaration, one per line: the first after `=`, the others after
/// `|`.
pub open spec fn variants_text(tags: Seq<Seq<char>>) -> Seq<char>
    decreases tags.len(),
{
    if tags.len() == 0 {
        Seq::empty()
    } else {
        variants_text(tags.drop_last()) + (if tags.len() == 1 {
            "    = "@
        } else {
            "    | "@
        }) + tags.last() + "\n"@
    }
}

/// The items of a list, one per line: the first after `[`, the others after `,`.
pub open spec fn items_text(tags: Seq<Seq<char>>) -> Seq<char>
    decreases tags.len(),
{
    if tags.len() == 0 {
        Seq::empty()
    } else {
        items_text(tags.drop_last()) + (if tags.len() == 1 {
            "    [ "@
        } else {
            "    , "@
        }) + tags.last() + "\n"@
    }
}

/// A list: its items, and the closing bracket on a line of its own.
pub open spec fn list_text(tags: Seq<Seq<char>>) -> Seq<char> {
    items_text(tags) + "    ]\n"@
}

/// One branch of a case distinction: the pattern, an arrow, and the result on the next line.
pub open spec fn case_text(arm: (Seq<char>, Seq<char>)) -> Seq<char> {
    "        "@ + arm.0 + " ->\n            "@ + arm.1 + "\n"@
}

/// The branches of a case distinction, in order.
pub open spec fn cases_text(arms: Seq<(Seq<char>, Seq<char>)>) -> Seq<char>
    decreases arms.len(),
{
    if arms.len() == 0 {
        Seq::empty()
    } else {
        cases_text(arms.drop_last()) + case_text(arms.last())
    }
}

/// Appends the variants of a type declaration.
pub fn put_variants(out: &mut String, tags: &Vec<String>)
    ensures
        final(out)@ == old(out)@ + variants_text(tags.deep_view()),
{
    let ghost start = out@;
    let ghost views = tags.deep_view();
    let mut i: usize = 0;
    assert(views.take(0) =~= Seq::empty());
    assert(out@ =~= start + variants_text(views.take(0)));
    while i < tags.len()
        invariant
            i <= tags.len(),
            views == tags.deep_view(),
            out@ == start + variants_text(views.take(i as int)),
        decreases tags.len() - i,
    {
        let ghost before = variants_text(views.take(i as int));
        if i == 0 {
            out.append("    = ");
        } else {
            out.append("    | ");
        }
        out.append(tags[i].as_str());
        out.append("\n");
        proof {
            let now = views.take(i + 1);
            assert(now.drop_last() =~= views.take(i as int));
            assert(now.last() == views[i as int]);
            assert(views[i as int] == tags@[i as int]@);
            assert(out@ =~= start + variants_text(now));
        }
        i += 1;
    }
    assert(views.take(views.len() as int) =~= views);
}

/// Appends a list: its items, and the closing bracket.
pub fn put_list(out: &mut String, tags: &Vec<String>)
    ensures
        final(out)@ == old(out)@ + list_text(tags.deep_view()),
{
    let ghost start = out@;
    let ghost views = tags.deep_view();
    let mut i: usize = 0;
    assert(views.take(0) =~= Seq::empty());
    assert(out@ =~= start + items_text(views.take(0)));
    while i < tags.len()
        invariant
            i <= tags.len(),
            views == tags.deep_view(),
            out@ == start + items_text(views.take(i as int)),
        decreases tags.len() - i,
    {
        if i == 0 {
            out.append("    [ ");
        } else {
            out.append("    , ");
        }
        out.append(tags[i].as_str());
        out.append("\n");
        proof {
            let now = views.take(i + 1);
            assert(now.drop_last() =~= views.take(i as int));
            assert(now.last() == views[i as int]);
            assert(views[i as int] == tags@[i as int]@);
            assert(out@ =~= start + items_text(now));
        }
        i += 1;
    }
    assert(views.take(views.len() as int) =~= views);
    out.append("    ]\n");
    assert(out@ =~= start + list_text(views));
}

/// Appends the branches of a case distinction.
pub fn put_cases(out: &mut String, arms: &Vec<(String, String)>)
    ensures
        final(out)@ == old(out)@ + cases_text(arms.deep_view()),
{
    let ghost start = out@;
    let ghost views = arms.deep_view();
    let mut i: usize = 0;
    assert(views.take(0) =~= Seq::empty());
    assert(out@ =~= start + cases_text(views.take(0)));
    while i < arms.len()
        invariant
            i <= arms.len(),
            views == arms.deep_view(),
            out@ == start + cases_text(views.take(i as int)),
        decreases arms.len() - i,
    {
        out.append("        ");
        out.append(arms[i].0.as_str());
        out.append(" ->\n            ");
        out.append(arms[i].1.as_str());
        out.append("\n");
        proof {
            let now = views.take(i + 1);
            assert(now.drop_last() =~= views.take(i as int));
            assert(now.last() == views[i as int]);
            assert(views[i as int] == (arms@[i as int].0@, arms@[i as int].1@));
            assert(out@ =~= start + cases_text(now));
        }
        i += 1;
    }
    assert(views.take(views.len() as int) =~= views);
}

/// `text` between double quotes.
pub fn quote(text: &str) -> (out: String)
    ensures
        out@ == crate::text::quoted(text@),
{
    let mut out = String::from_str("\"");
    out.append(text);
    out.append("\"");
    proof {
        reveal_strlit("\"");
        assert("\""@ =~= seq!['"']);
    }
    out
}

/// `text` after the word `Just`.
pub fn just(text: &str) -> (out: String)
    ensures
        out@ == "Just "@ + text@,
{
    let mut out = String::from_str("Just ");
    out.append(text);
    out
}

} // verus!
