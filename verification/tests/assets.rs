use manifester::assets::{
    blur_name, description_name, plan_thumbnails, progress_message, thumbnail_name, ImageAsset,
    Month, ThumbnailPlan,
    ASSET_PATTERN, BLUR_RADIUS, NOT_BLUR_PATTERN, NOT_THUMBNAIL_PATTERN, PANORAMA_WIDTH,
    THUMBNAIL_HEIGHT, THUMBNAIL_WIDTH,
};
use manifester::error::AssetError;
use manifester::place::Location;

fn path(components: &[&str]) -> Vec<String> {
    components.iter().map(|c| c.to_string()).collect()
}

#[test]
fn asset_from_a_path_of_year_month_location() {
    let asset = ImageAsset::from_path(&path(&["2019", "07", "Seoul", "photo.jpg"]), 4000, 3000, "")
        .unwrap();
    assert_eq!(asset.file, "photo.jpg");
    assert_eq!(asset.year, "2019");
    assert_eq!(asset.month, Month::Jul);
    assert_eq!(asset.location, Location::Seoul);
    assert_eq!(asset.description, "");
    assert_eq!(asset.width, 4000);
    assert_eq!(asset.height, 3000);
}

#[test]
fn asset_from_a_path_with_a_country_directory() {
    let asset = ImageAsset::from_path(
        &path(&["2018", "12", "Korea", "Jeju", "beach.png"]),
        10,
        20,
        " the beach \n",
    )
    .unwrap();
    assert_eq!(asset.file, "beach.png");
    assert_eq!(asset.year, "2018");
    assert_eq!(asset.month, Month::Dec);
    assert_eq!(asset.location, Location::Jeju);
    assert_eq!(asset.description, " the beach \n");
    let deeper = ImageAsset::from_path(
        &path(&["dist", "gallery", "2018", "01", "Korea", "An_dong", "a.JPG"]),
        1,
        1,
        "",
    )
    .unwrap();
    assert_eq!(deeper.year, "2018");
    assert_eq!(deeper.month, Month::Jan);
    assert_eq!(deeper.location, Location::Andong);
}

#[test]
fn asset_path_errors() {
    let none = ImageAsset::from_path(&path(&[]), 1, 1, "").unwrap_err();
    assert!(matches!(none, AssetError::MissingFileName));
    assert_eq!(none.message(), "File name unwrap issue.");
    let file_only = ImageAsset::from_path(&path(&["photo.jpg"]), 1, 1, "").unwrap_err();
    assert!(matches!(file_only, AssetError::MissingLocation));
    assert_eq!(file_only.message(), "Location unwrap issue.");
    let unknown = ImageAsset::from_path(&path(&["2019", "07", "Bu san", "photo.jpg"]), 1, 1, "")
        .unwrap_err();
    match &unknown {
        AssetError::UnknownLocation(text) => assert_eq!(text, "Busan"),
        other => panic!("unexpected error {:?}", other),
    }
    assert_eq!(unknown.message(), "Matching variant not found");
    let short = ImageAsset::from_path(&path(&["07", "Seoul", "photo.jpg"]), 1, 1, "").unwrap_err();
    assert!(matches!(short, AssetError::MissingMonth));
    assert_eq!(short.message(), "Month unwrap issue.");
    let month = ImageAsset::from_path(&path(&["2019", "13", "Seoul", "photo.jpg"]), 1, 1, "")
        .unwrap_err();
    match &month {
        AssetError::UnknownMonth(text) => assert_eq!(text, "13"),
        other => panic!("unexpected error {:?}", other),
    }
    assert_eq!(month.message(), "13 makes no sense to be a month.");
    let shifted = ImageAsset::from_path(
        &path(&["2019", "07", "Seoul", "extra", "photo.jpg"]),
        1,
        1,
        "",
    )
    .unwrap_err();
    assert!(matches!(shifted, AssetError::UnknownLocation(_)));
}

#[test]
fn months_are_read_from_two_digits() {
    let expected = [
        ("01", Month::Jan, "Jan"),
        ("02", Month::Feb, "Feb"),
        ("03", Month::Mar, "Mar"),
        ("04", Month::Apr, "Apr"),
        ("05", Month::May, "May"),
        ("06", Month::Jun, "Jun"),
        ("07", Month::Jul, "Jul"),
        ("08", Month::Aug, "Aug"),
        ("09", Month::Sep, "Sep"),
        ("10", Month::Oct, "Oct"),
        ("11", Month::Nov, "Nov"),
        ("12", Month::Dec, "Dec"),
    ];
    for (number, month, name) in expected {
        assert_eq!(Month::from_str(number).unwrap(), month);
        assert_eq!(month.number(), number);
        assert_eq!(month.name(), name);
    }
    assert_eq!(Month::all().len(), 12);
    for text in ["", "0", "1", "7", "00", "13", "007", " 07", "Jul", "07 "] {
        match Month::from_str(text).unwrap_err() {
            AssetError::UnknownMonth(t) => assert_eq!(t, text),
            other => panic!("unexpected error {:?}", other),
        }
    }
}

#[test]
fn thumbnail_width_depends_on_the_aspect_ratio() {
    assert_eq!((THUMBNAIL_WIDTH, PANORAMA_WIDTH, THUMBNAIL_HEIGHT, BLUR_RADIUS), (500, 900, 500, 30));
    let cases: [(u32, u32, u32); 9] = [
        (4000, 3000, 500),
        (1, 1, 500),
        (2999, 1000, 500),
        (3000, 1000, 900),
        (3001, 1000, 900),
        (0, 1, 500),
        (0, 0, 900),
        (5, 0, 900),
        (u32::MAX, u32::MAX, 500),
    ];
    for (width, height, expected) in cases {
        let plan = plan_thumbnails(width, height, false, false);
        assert_eq!(plan.width, expected);
        assert_eq!(plan.height, 500);
        let ratio = width as f64 / height as f64;
        assert_eq!(plan.width, if ratio < 3.0 { 500 } else { 900 });
    }
    assert_eq!(plan_thumbnails(u32::MAX, 1431655765, false, false).width, 900);
    assert_eq!(plan_thumbnails(u32::MAX, 1431655766, false, false).width, 500);
}

#[test]
fn only_missing_artifacts_are_made() {
    assert_eq!(
        plan_thumbnails(4, 3, false, false),
        ThumbnailPlan { width: 500, height: 500, make_thumbnail: true, make_blur: true }
    );
    assert_eq!(
        plan_thumbnails(4, 3, true, false),
        ThumbnailPlan { width: 500, height: 500, make_thumbnail: false, make_blur: true }
    );
    assert_eq!(
        plan_thumbnails(4, 3, false, true),
        ThumbnailPlan { width: 500, height: 500, make_thumbnail: true, make_blur: false }
    );
    assert_eq!(
        plan_thumbnails(4, 3, true, true),
        ThumbnailPlan { width: 500, height: 500, make_thumbnail: false, make_blur: false }
    );
}

#[test]
fn a_second_pass_makes_nothing() {
    for thumbnail in [false, true] {
        for blur in [false, true] {
            let first = plan_thumbnails(1200, 300, thumbnail, blur);
            let second =
                plan_thumbnails(1200, 300, thumbnail || first.make_thumbnail, blur || first.make_blur);
            assert!(!second.make_thumbnail);
            assert!(!second.make_blur);
        }
    }
}

#[test]
fn artifact_names_carry_their_markers() {
    assert_eq!(thumbnail_name("photo", "jpg"), "photo_small.jpg");
    assert_eq!(blur_name("photo", "jpg"), "photo_blur.jpg");
    assert_eq!(description_name("photo"), "photo.desc");
    assert_eq!(thumbnail_name("", ""), "_small.");
    assert_eq!(blur_name("a.b", "PNG"), "a.b_blur.PNG");
    assert_eq!(ASSET_PATTERN, "*.{png,jpg,jpeg,PNG,JPG,JPEG}");
    assert_eq!(NOT_THUMBNAIL_PATTERN, "!*_small*");
    assert_eq!(NOT_BLUR_PATTERN, "!*_blur*");
}

#[test]
fn progress_message_shortens_long_paths() {
    assert_eq!(progress_message("2019/07/Korea/Seoul/photo.jpg"), "2019/07/Korea/Seoul/photo.jpg");
    assert_eq!(progress_message(""), "");
    let fifty = "2019/07/Korea/Seoul/aaaaaaaaaaaaaaaaaaaaaaaaaa.jpg";
    assert_eq!(fifty.len(), 50);
    assert_eq!(progress_message(fifty), fifty);
    let longer = "2019/07/Korea/Seoul/aaaaaaaaaaaaaaaaaaaaaaaaaaa.jpg";
    assert_eq!(longer.len(), 51);
    assert_eq!(progress_message(longer), ".../.../aaaaaaaaaaaaaaaaaaaaaaaaaaa.jpg");
    let ends_in_slash = "2019/07/Korea/Seoul/aaaaaaaaaaaaaaaaaaaaaaaaaaaaaaaaaa/";
    assert_eq!(progress_message(ends_in_slash), ".../.../");
    let no_slash = "aaaaaaaaaaaaaaaaaaaaaaaaaaaaaaaaaaaaaaaaaaaaaaaaaaaaaaaa";
    assert_eq!(progress_message(no_slash), format!(".../.../{}", no_slash));
    let wide = "2019/07/한국/서울/사진사진사진사진사진.jpg";
    assert!(wide.chars().count() <= 50 && wide.len() > 50);
    assert_eq!(progress_message(wide), ".../.../사진사진사진사진사진.jpg");
}
