//! Image assets: what the path of an asset says about it, which artifacts are derived from
//! it, and which of them still have to be made.

use crate::error::AssetError;
use crate::identifier::{location_identifier, to_location_identfier_string};
use crate::place::Location;
use crate::chars::push_char;
use crate::text::same_text;
use vstd::prelude::*;
use vstd::string::*;

verus! {

/// The height that thumbnails are fitted into.
pub const THUMBNAIL_HEIGHT: u32 = 500;

/// The width that thumbnails of ordinary images are fitted into.
pub const THUMBNAIL_WIDTH: u32 = 500;

/// The width that thumbnails of panoramas are fitted into.
pub const PANORAMA_WIDTH: u32 = 900;

/// The radius of the blur of a preview.
pub const BLUR_RADIUS: u32 = 30;

/// The file name patterns of the assets: images by their extension, derived artifacts left out.
pub const ASSET_PATTERN: &'static str = "*.{png,jpg,jpeg,PNG,JPG,JPEG}";

/// The pattern that leaves out thumbnails.
pub const NOT_THUMBNAIL_PATTERN: &'static str = "!*_small*";

/// The pattern that leaves out blurred previews.
pub const NOT_BLUR_PATTERN: &'static str = "!*_blur*";

/// A month of the year.
#[derive(Clone, Copy, Debug, PartialEq, Eq, Structural)]
pub enum Month {
    Jan,
    Feb,
    Mar,
    Apr,
    May,
    Jun,
    Jul,
    Aug,
    Sep,
    Oct,
    Nov,
    Dec,
}

impl Month {
    /// The month's two-digit number as a sequence of characters.
    pub open spec fn spec_number(self) -> Seq<char> {
        match self {
            Month::Jan => "01"@,
            Month::Feb => "02"@,
            Month::Mar => "03"@,
            Month::Apr => "04"@,
            Month::May => "05"@,
            Month::Jun => "06"@,
            Month::Jul => "07"@,
            Month::Aug => "08"@,
            Month::Sep => "09"@,
            Month::Oct => "10"@,
            Month::Nov => "11"@,
            Month::Dec => "12"@,
        }
    }

    /// The month's name as a sequence of characters.
    pub open spec fn spec_name(self) -> Seq<char> {
        match self {
            Month::Jan => "Jan"@,
            Month::Feb => "Feb"@,
            Month::Mar => "Mar"@,
            Month::Apr => "Apr"@,
            Month::May => "May"@,
            Month::Jun => "Jun"@,
            Month::Jul => "Jul"@,
            Month::Aug => "Aug"@,
            Month::Sep => "Sep"@,
            Month::Oct => "Oct"@,
            Month::Nov => "Nov"@,
            Month::Dec => "Dec"@,
        }
    }

    /// Every month, in the order of the year.
    pub open spec fn spec_all() -> Seq<Month> {
        seq![
            Month::Jan,
            Month::Feb,
            Month::Mar,
            Month::Apr,
            Month::May,
            Month::Jun,
            Month::Jul,
            Month::Aug,
            Month::Sep,
            Month::Oct,
            Month::Nov,
            Month::Dec,
        ]
    }

    /// The month of a text, if the text is a month's number.
    pub open spec fn spec_from(text: Seq<char>) -> Option<Month> {
        if exists|m: Month| m.spec_number() == text {
            Some(choose|m: Month| m.spec_number() == text)
        } else {
            None
        }
    }

    /// The month's two-digit number.
    pub fn number(&self) -> (number: &'static str)
        ensures
            number@ == self.spec_number(),
    {
        match self {
            Month::Jan => "01",
            Month::Feb => "02",
            Month::Mar => "03",
            Month::Apr => "04",
            Month::May => "05",
            Month::Jun => "06",
            Month::Jul => "07",
            Month::Aug => "08",
            Month::Sep => "09",
            Month::Oct => "10",
            Month::Nov => "11",
            Month::Dec => "12",
        }
    }

    /// The month's name, as generated code writes it.
    pub fn name(&self) -> (name: &'static str)
        ensures
            name@ == self.spec_name(),
    {
        match self {
            Month::Jan => "Jan",
            Month::Feb => "Feb",
            Month::Mar => "Mar",
            Month::Apr => "Apr",
            Month::May => "May",
            Month::Jun => "Jun",
            Month::Jul => "Jul",
            Month::Aug => "Aug",
            Month::Sep => "Sep",
            Month::Oct => "Oct",
            Month::Nov => "Nov",
            Month::Dec => "Dec",
        }
    }

    /// Every month, in the order of the year.
    pub fn all() -> (all: Vec<Month>)
        ensures
            all@ == Month::spec_all(),
    {
        let mut all: Vec<Month> = Vec::new();
        all.push(Month::Jan);
        all.push(Month::Feb);
        all.push(Month::Mar);
        all.push(Month::Apr);
        all.push(Month::May);
        all.push(Month::Jun);
        all.push(Month::Jul);
        all.push(Month::Aug);
        all.push(Month::Sep);
        all.push(Month::Oct);
        all.push(Month::Nov);
        all.push(Month::Dec);
        assert(all@ =~= Month::spec_all());
        all
    }

    /// Reads a month from its two-digit number, `01` to `12`. Any other text is an error.
    pub fn from_str(s: &str) -> (month: Result<Month, AssetError>)
        ensures
            match month {
                Ok(m) => m.spec_number() == s@ && Month::spec_from(s@) == Some(m),
                Err(e) => {
                    &&& forall|m: Month| m.spec_number() != s@
                    &&& Month::spec_from(s@) is None
                    &&& e@ == crate::error::AssetErrorView::UnknownMonth(s@)
                },
            },
    {
        let all = Month::all();
        let mut i: usize = 0;
        while i < all.len()
            invariant
                i <= all.len(),
                all@ == Month::spec_all(),
                forall|j: int| 0 <= j < i ==> all@[j].spec_number() != s@,
            decreases all.len() - i,
        {
            if same_text(all[i].number(), s) {
                proof {
                    let m = all@[i as int];
                    let chosen = choose|m: Month| m.spec_number() == s@;
                    lemma_month_numbers_distinct(m, chosen);
                }
                return Ok(all[i]);
            }
            i += 1;
        }
        proof {
            assert forall|m: Month| m.spec_number() != s@ by {
                lemma_all_months(m);
            }
        }
        Err(AssetError::UnknownMonth(String::from_str(s)))
    }
}

/// Every month occurs in the list of all months.
pub proof fn lemma_all_months(m: Month)
    ensures
        exists|j: int| 0 <= j < Month::spec_all().len() && Month::spec_all()[j] == m,
{
    let all = Month::spec_all();
    match m {
        Month::Jan => assert(all[0] == m),
        Month::Feb => assert(all[1] == m),
        Month::Mar => assert(all[2] == m),
        Month::Apr => assert(all[3] == m),
        Month::May => assert(all[4] == m),
        Month::Jun => assert(all[5] == m),
        Month::Jul => assert(all[6] == m),
        Month::Aug => assert(all[7] == m),
        Month::Sep => assert(all[8] == m),
        Month::Oct => assert(all[9] == m),
        Month::Nov => assert(all[10] == m),
        Month::Dec => assert(all[11] == m),
    }
}

/// The place of a month in the year, from 1 to 12.
pub open spec fn month_ordinal(m: Month) -> int {
    match m {
        Month::Jan => 1,
        Month::Feb => 2,
        Month::Mar => 3,
        Month::Apr => 4,
        Month::May => 5,
        Month::Jun => 6,
        Month::Jul => 7,
        Month::Aug => 8,
        Month::Sep => 9,
        Month::Oct => 10,
        Month::Nov => 11,
        Month::Dec => 12,
    }
}

/// A month's number is its place in the year, written with two digits.
pub proof fn lemma_month_number_digits(m: Month)
    ensures
        m.spec_number().len() == 2,
        m.spec_number()[0] == (if month_ordinal(m) < 10 {
            '0'
        } else {
            '1'
        }),
        m.spec_number()[1] as int == '0' as int + month_ordinal(m) % 10,
{
    reveal_strlit("01");
    reveal_strlit("02");
    reveal_strlit("03");
    reveal_strlit("04");
    reveal_strlit("05");
    reveal_strlit("06");
    reveal_strlit("07");
    reveal_strlit("08");
    reveal_strlit("09");
    reveal_strlit("10");
    reveal_strlit("11");
    reveal_strlit("12");
}

/// Two months with the same number are the same month.
pub proof fn lemma_month_numbers_distinct(a: Month, b: Month)
    requires
        a.spec_number() == b.spec_number(),
    ensures
        a == b,
{
    lemma_month_number_digits(a);
    lemma_month_number_digits(b);
    assert(a.spec_number()[0] == b.spec_number()[0]);
    assert(a.spec_number()[1] == b.spec_number()[1]);
    assert(month_ordinal(a) == month_ordinal(b));
}

/// Which artifacts to derive from an image, and into which size to fit them.
#[derive(Clone, Copy, Debug, PartialEq, Eq, Structural)]
pub struct ThumbnailPlan {
    /// The width to fit the image into.
    pub width: u32,
    /// The height to fit the image into.
    pub height: u32,
    /// Whether the thumbnail has to be made.
    pub make_thumbnail: bool,
    /// Whether the blurred preview has to be made.
    pub make_blur: bool,
}

/// True when an image of this size is less than three times as wide as it is high. An image
/// without height is not.
pub open spec fn is_ordinary(width: u32, height: u32) -> bool {
    width < 3 * height
}

/// The plan for an image of the given size: an artifact is made exactly when it does not
/// exist yet; ordinary images are fitted into a square, panoramas into a wider frame.
pub open spec fn plan_for(width: u32, height: u32, thumbnail_exists: bool, blur_exists: bool) -> ThumbnailPlan {
    ThumbnailPlan {
        width: if is_ordinary(width, height) {
            THUMBNAIL_WIDTH
        } else {
            PANORAMA_WIDTH
        },
        height: THUMBNAIL_HEIGHT,
        make_thumbnail: !thumbnail_exists,
        make_blur: !blur_exists,
    }
}

/// Decides which artifacts to derive from an image of the given size, given which of them
/// exist already.
pub fn plan_thumbnails(width: u32, height: u32, thumbnail_exists: bool, blur_exists: bool) -> (plan:
    ThumbnailPlan)
    ensures
        plan == plan_for(width, height, thumbnail_exists, blur_exists),
{
    let wide: u64 = width as u64;
    let high: u64 = height as u64;
    ThumbnailPlan {
        width: if wide < 3 * high {
            THUMBNAIL_WIDTH
        } else {
            PANORAMA_WIDTH
        },
        height: THUMBNAIL_HEIGHT,
        make_thumbnail: !thumbnail_exists,
        make_blur: !blur_exists,
    }
}

/// Deriving the artifacts twice makes nothing the second time: once a plan has been carried
/// out, the plan for the same image is empty.
pub proof fn lemma_second_plan_is_empty(width: u32, height: u32, thumbnail_exists: bool, blur_exists: bool)
    ensures
        ({
            let first = plan_for(width, height, thumbnail_exists, blur_exists);
            let second = plan_for(
                width,
                height,
                thumbnail_exists || first.make_thumbnail,
                blur_exists || first.make_blur,
            );
            !second.make_thumbnail && !second.make_blur
        }),
        thumbnail_exists && blur_exists ==> {
            let plan = plan_for(width, height, thumbnail_exists, blur_exists);
            !plan.make_thumbnail && !plan.make_blur
        },
{
}

/// The file name of the thumbnail of the image `stem.extension`.
pub open spec fn thumbnail_file(stem: Seq<char>, extension: Seq<char>) -> Seq<char> {
    stem + "_small."@ + extension
}

/// The file name of the blurred preview of the image `stem.extension`.
pub open spec fn blur_file(stem: Seq<char>, extension: Seq<char>) -> Seq<char> {
    stem + "_blur."@ + extension
}

/// The file name of the description of the image `stem.extension`.
pub open spec fn description_file(stem: Seq<char>) -> Seq<char> {
    stem + ".desc"@
}

/// The file name under which the thumbnail of an image is kept, beside the image.
pub fn thumbnail_name(stem: &str, extension: &str) -> (name: String)
    ensures
        name@ == thumbnail_file(stem@, extension@),
{
    let mut name = String::from_str(stem);
    name.append("_small.");
    name.append(extension);
    name
}

/// The file name under which the blurred preview of an image is kept, beside the image.
pub fn blur_name(stem: &str, extension: &str) -> (name: String)
    ensures
        name@ == blur_file(stem@, extension@),
{
    let mut name = String::from_str(stem);
    name.append("_blur.");
    name.append(extension);
    name
}

/// The file name under which the description of an image is kept, beside the image.
pub fn description_name(stem: &str) -> (name: String)
    ensures
        name@ == description_file(stem@),
{
    let mut name = String::from_str(stem);
    name.append(".desc");
    name
}

/// An image of the gallery: its file name, when and where it was taken according to the
/// directories that it lies in, its size in pixels, and its description.
#[derive(Debug)]
pub struct ImageAsset {
    pub file: String,
    pub year: String,
    pub month: Month,
    pub location: Location,
    pub width: u32,
    pub height: u32,
    pub description: String,
}

/// The mathematical value of an [`ImageAsset`].
pub struct ImageAssetView {
    pub file: Seq<char>,
    pub year: Seq<char>,
    pub month: Month,
    pub location: Location,
    pub width: u32,
    pub height: u32,
    pub description: Seq<char>,
}

impl View for ImageAsset {
    type V = ImageAssetView;

    open spec fn view(&self) -> ImageAssetView {
        ImageAssetView {
            file: self.file@,
            year: self.year@,
            month: self.month,
            location: self.location,
            width: self.width,
            height: self.height,
            description: self.description@,
        }
    }
}

impl DeepView for ImageAsset {
    type V = ImageAssetView;

    open spec fn deep_view(&self) -> ImageAssetView {
        self@
    }
}

/// The location that a directory name stands for: the one whose tag is the derived
/// identifier of the name.
pub open spec fn location_of(directory: Seq<char>) -> Option<Location> {
    if exists|l: Location| l.spec_tag() == location_identifier(directory) {
        Some(choose|l: Location| l.spec_tag() == location_identifier(directory))
    } else {
        None
    }
}

/// Where in a path of `n` components the month stands: two places before the location where
/// a country's directory lies between them, one place before it in a path of four.
pub open spec fn month_position(n: int) -> int {
    if n == 4 {
        1
    } else {
        n - 4
    }
}

/// What a path says about an asset. The path is given by its components below the gallery,
/// the file name last. Before the file name stands the directory of the location. A path of
/// four components is `year/month/location/file`; in a longer path the directory of a
/// country, which is not looked at, lies between month and location, and what stands before
/// the year is not looked at either.
pub open spec fn read_path(
    path: Seq<Seq<char>>,
    width: u32,
    height: u32,
    description: Seq<char>,
) -> Result<ImageAssetView, crate::error::AssetErrorView> {
    let n = path.len() as int;
    if n < 1 {
        Err(crate::error::AssetErrorView::MissingFileName)
    } else if n < 2 {
        Err(crate::error::AssetErrorView::MissingLocation)
    } else if location_of(path[n - 2]) is None {
        Err(crate::error::AssetErrorView::UnknownLocation(location_identifier(path[n - 2])))
    } else if n < 4 {
        Err(crate::error::AssetErrorView::MissingMonth)
    } else if Month::spec_from(path[month_position(n)]) is None {
        Err(crate::error::AssetErrorView::UnknownMonth(path[month_position(n)]))
    } else {
        Ok(
            ImageAssetView {
                file: path[n - 1],
                year: path[month_position(n) - 1],
                month: Month::spec_from(path[month_position(n)])->Some_0,
                location: location_of(path[n - 2])->Some_0,
                width,
                height,
                description,
            },
        )
    }
}

impl ImageAsset {
    /// Reads what the path of an asset says about it, and notes the asset's size and
    /// description beside it.
    pub fn from_path(path: &Vec<String>, width: u32, height: u32, description: &str) -> (asset: Result<
        ImageAsset,
        AssetError,
    >)
        ensures
            match asset {
                Ok(a) => read_path(path.deep_view(), width, height, description@) == Ok::<
                    ImageAssetView,
                    crate::error::AssetErrorView,
                >(a@),
                Err(e) => read_path(path.deep_view(), width, height, description@) == Err::<
                    ImageAssetView,
                    crate::error::AssetErrorView,
                >(e@),
            },
    {
        let ghost views = path.deep_view();
        let n: usize = path.len();
        if n < 1 {
            return Err(AssetError::MissingFileName);
        }
        if n < 2 {
            return Err(AssetError::MissingLocation);
        }
        assert(views[n - 2] == path@[n - 2]@);
        assert(views[n - 1] == path@[n - 1]@);
        let identifier = to_location_identfier_string(path[n - 2].as_str());
        let location = match Location::from_tag(identifier.as_str()) {
            Some(location) => {
                proof {
                    let chosen = choose|l: Location| l.spec_tag() == location_identifier(views[n - 2]);
                    if chosen != location {
                        crate::place::lemma_location_tags_distinct(chosen, location);
                    }
                }
                location
            },
            None => {
                return Err(AssetError::UnknownLocation(identifier));
            },
        };
        if n < 4 {
            return Err(AssetError::MissingMonth);
        }
        let at: usize = if n == 4 {
            1
        } else {
            n - 4
        };
        assert(views[at as int] == path@[at as int]@);
        assert(views[at - 1] == path@[at - 1]@);
        let month = match Month::from_str(path[at].as_str()) {
            Ok(month) => month,
            Err(e) => {
                return Err(e);
            },
        };
        Ok(
            ImageAsset {
                file: path[n - 1].clone(),
                year: path[at - 1].clone(),
                month,
                location,
                width,
                height,
                description: String::from_str(description),
            },
        )
    }
}

/// The last component of a path: what follows the last slash.
pub open spec fn last_component(path: Seq<char>) -> Seq<char>
    decreases path.len(),
{
    if path.len() == 0 || path.last() == '/' {
        Seq::empty()
    } else {
        last_component(path.drop_last()).push(path.last())
    }
}

/// What the progress indicator shows for the asset at `path`: the path, or, where the path
/// takes more than fifty bytes, only its last component after `.../.../`.
pub open spec fn progress_text(path: Seq<char>) -> Seq<char> {
    if vstd::utf8::encode_utf8(path).len() > 50 {
        ".../.../"@ + last_component(path)
    } else {
        path
    }
}

/// The message that the progress indicator shows for the asset at `path`.
pub fn progress_message(path: &str) -> (message: String)
    ensures
        message@ == progress_text(path@),
{
    broadcast use vstd::string::axiom_spec_iter;

    if path.as_bytes().len() > 50 {
        let mut last = String::new();
        for c in it: path.chars()
            invariant
                it.seq() == path@,
                last@ == last_component(path@.take(it.index())),
        {
            proof {
                let now = path@.take(it.index() + 1);
                assert(now.drop_last() =~= path@.take(it.index()));
                assert(now.last() == c);
            }
            if c == '/' {
                last = String::new();
            } else {
                push_char(&mut last, c);
            }
        }
        assert(path@.take(path@.len() as int) =~= path@);
        let mut message = String::from_str(".../.../");
        message.append(last.as_str());
        message
    } else {
        String::from_str(path)
    }
}

} // verus!
