use bookmark_hub::api::{ProfileQuery, VersionResponse};
use bookmark_hub::bookmark::{
    BackgroundImage, Bookmark, BookmarkProfile, ImageOrientation,
};
use bookmark_hub::config::Config;
use bookmark_hub::error::Error;
use bookmark_hub::images::{
    add_background_image, add_background_image_with, delete_background_image, detect_extension,
    find_bookmark, first_extension, get_background_images, orientation_of,
    remove_background_image_with, set_icon, set_icon_with, stored_filename,
    upload_background_image, upload_background_image_with, BackgroundImageInfo,
    DeleteBackgroundImageQuery, IconUpdate, UploadBackgroundImageQuery,
};
use bookmark_hub::session::SessionStore;
use bookmark_hub::state::Storage;
use bookmark_hub::text::after_last_dot;

const WIDE_PNG: [u8; 70] = [
    137, 80, 78, 71, 13, 10, 26, 10, 0, 0, 0, 13, 73, 72, 68, 82, 0, 0, 0, 2, 0, 0, 0, 1, 8, 2, 0,
    0, 0, 123, 64, 232, 221, 0, 0, 0, 13, 73, 68, 65, 84, 120, 156, 99, 16, 80, 48, 0, 34, 0, 2,
    103, 0, 193, 147, 68, 14, 97, 0, 0, 0, 0, 73, 69, 78, 68, 174, 66, 96, 130,
];

const TALL_PNG: [u8; 71] = [
    137, 80, 78, 71, 13, 10, 26, 10, 0, 0, 0, 13, 73, 72, 68, 82, 0, 0, 0, 1, 0, 0, 0, 2, 8, 2, 0,
    0, 0, 22, 227, 33, 112, 0, 0, 0, 14, 73, 68, 65, 84, 120, 156, 99, 16, 80, 48, 96, 0, 98, 0, 2,
    200, 0, 193, 242, 215, 91, 146, 0, 0, 0, 0, 73, 69, 78, 68, 174, 66, 96, 130,
];

const SQUARE_PNG: [u8; 73] = [
    137, 80, 78, 71, 13, 10, 26, 10, 0, 0, 0, 13, 73, 72, 68, 82, 0, 0, 0, 2, 0, 0, 0, 2, 8, 2, 0,
    0, 0, 253, 212, 154, 115, 0, 0, 0, 16, 73, 68, 65, 84, 120, 156, 99, 16, 80, 48, 0, 34, 6, 8,
    5, 0, 10, 14, 1, 129, 86, 51, 238, 243, 0, 0, 0, 0, 73, 69, 78, 68, 174, 66, 96, 130,
];

const ID: u128 = 0xa1a2a3a4_b1b2_c1c2_d1d2_d3d4d5d6d7d8;
const ID_TEXT: &str = "a1a2a3a4-b1b2-c1c2-d1d2-d3d4d5d6d7d8";

fn profile(name: &str, version: Option<&str>) -> BookmarkProfile {
    BookmarkProfile {
        name: name.to_string(),
        bookmarks: vec![],
        tags: vec![],
        search_engine: "q".to_string(),
        intranet_check_url: None,
        background_images: vec![],
        version: version.map(|v| v.to_string()),
    }
}

fn bookmark(id: u128, icon: Option<&str>) -> Bookmark {
    Bookmark {
        id,
        title: "t".to_string(),
        search_title: None,
        url: "https://example.com".to_string(),
        intranet_url: None,
        search_url: None,
        tags: vec![],
        icon: icon.map(|i| i.to_string()),
    }
}

fn image(id: u128, filename: &str, orientation: ImageOrientation) -> BackgroundImage {
    BackgroundImage { id, filename: filename.to_string(), orientation }
}

fn storage(profiles: Vec<BookmarkProfile>) -> Storage {
    Storage::new(Config::default(), profiles, SessionStore::new())
}

fn query(profile: &str) -> UploadBackgroundImageQuery {
    UploadBackgroundImageQuery { profile: profile.to_string() }
}

#[test]
fn last_segment_of_a_file_name() {
    assert_eq!(after_last_dot("photo.png"), "png");
    assert_eq!(after_last_dot("archive.tar.gz"), "gz");
    assert_eq!(after_last_dot("noext"), "noext");
    assert_eq!(after_last_dot("trailing."), "");
    assert_eq!(after_last_dot(".hidden"), "hidden");
    assert_eq!(after_last_dot(""), "");
}

#[test]
fn extension_from_the_name_comes_first() {
    assert_eq!(detect_extension("a.png", &[]), Some("png".to_string()));
    assert_eq!(detect_extension("a.JPEG", &[]), Some("jpg".to_string()));
    assert_eq!(detect_extension("a.b.jpg", &WIDE_PNG), Some("jpg".to_string()));
    assert_eq!(detect_extension("a.gif", &[]), Some("gif".to_string()));
    assert_eq!(detect_extension("a.tif", &[]), Some("tiff".to_string()));
    assert_eq!(detect_extension("webp", &[]), Some("webp".to_string()));
}

#[test]
fn extension_from_the_content_comes_second() {
    assert_eq!(detect_extension("upload.bin", &WIDE_PNG), Some("png".to_string()));
    assert_eq!(detect_extension("upload", &[0xFF, 0xD8, 0xFF, 0xE0]), Some("jpg".to_string()));
    assert_eq!(detect_extension("x.dat", b"GIF89a...."), Some("gif".to_string()));
    assert_eq!(detect_extension("x.dat", b"BM......"), Some("bmp".to_string()));
    assert_eq!(detect_extension("upload.bin", b"plain text"), None);
    assert_eq!(detect_extension("", &[]), None);
}

#[test]
fn orientation_is_landscape_only_when_wider() {
    assert_eq!(orientation_of(2, 1), ImageOrientation::Landscape);
    assert_eq!(orientation_of(1, 2), ImageOrientation::Portrait);
    assert_eq!(orientation_of(5, 5), ImageOrientation::Portrait);
    assert_eq!(orientation_of(0, 0), ImageOrientation::Portrait);
    assert_eq!(orientation_of(u32::MAX, u32::MAX - 1), ImageOrientation::Landscape);
}

#[test]
fn stored_file_name_is_identifier_dot_extension() {
    assert_eq!(stored_filename(ID, "png"), format!("{}.png", ID_TEXT));
    assert_eq!(stored_filename(0, "jpg"), "00000000-0000-0000-0000-000000000000.jpg");
    assert_eq!(stored_filename(u128::MAX, ""), "ffffffff-ffff-ffff-ffff-ffffffffffff.");
}

#[test]
fn upload_makes_the_record() {
    let s = storage(vec![profile("a", None)]);
    let wide = upload_background_image_with(&s, &query("a"), Some("w.png"), Some(&WIDE_PNG), ID);
    assert_eq!(
        wide,
        Ok(image(ID, &format!("{}.png", ID_TEXT), ImageOrientation::Landscape))
    );
    let tall = upload_background_image_with(&s, &query("a"), Some("t.bin"), Some(&TALL_PNG), 1);
    assert_eq!(
        tall,
        Ok(image(1, "00000000-0000-0000-0000-000000000001.png", ImageOrientation::Portrait))
    );
    let square = upload_background_image_with(&s, &query("a"), Some("s.jpeg"), Some(&SQUARE_PNG), 2);
    assert_eq!(
        square,
        Ok(image(2, "00000000-0000-0000-0000-000000000002.jpg", ImageOrientation::Portrait))
    );
    assert_eq!(s.profiles, vec![profile("a", None)]);
}

#[test]
fn upload_is_refused_in_order_of_the_checks() {
    let s = storage(vec![profile("a", None)]);
    assert_eq!(
        upload_background_image_with(&s, &query("x"), None, None, ID),
        Err(Error::ProfileNotFound)
    );
    assert_eq!(
        upload_background_image_with(&s, &query("a"), None, Some(&WIDE_PNG), ID),
        Err(Error::BadRequest)
    );
    assert_eq!(
        upload_background_image_with(&s, &query("a"), Some("w.png"), None, ID),
        Err(Error::BadRequest)
    );
    assert_eq!(
        upload_background_image_with(&s, &query("a"), Some("w.txt"), Some(b"hello"), ID),
        Err(Error::InvalidImageFormat)
    );
    assert_eq!(
        upload_background_image_with(&s, &query("a"), Some("w.png"), Some(b"not a png"), ID),
        Err(Error::InvalidImageFormat)
    );
}

#[test]
fn upload_takes_a_fresh_identifier() {
    let s = storage(vec![profile("a", None)]);
    let one = upload_background_image(&s, &query("a"), Some("w.png"), Some(&WIDE_PNG)).unwrap();
    let two = upload_background_image(&s, &query("a"), Some("w.png"), Some(&WIDE_PNG)).unwrap();
    assert_ne!(one.id, two.id);
    assert_eq!(one.filename, stored_filename(one.id, "png"));
    assert_eq!(one.orientation, ImageOrientation::Landscape);
    assert_eq!(
        upload_background_image(&s, &query("zz"), Some("w.png"), Some(&WIDE_PNG)),
        Err(Error::ProfileNotFound)
    );
}

#[test]
fn added_image_goes_to_the_end_and_renews_the_version() {
    let mut first = profile("a", Some("v1"));
    first.background_images.push(image(1, "1.png", ImageOrientation::Portrait));
    let mut s = storage(vec![profile("x", Some("vx")), first]);
    let added = image(2, "2.jpg", ImageOrientation::Landscape);
    let r = add_background_image_with(&mut s, "a", added.clone(), "v2".to_string()).unwrap();
    assert_eq!(r.image, added);
    assert_eq!(r.version, Some("v2".to_string()));
    assert_eq!(
        s.profiles[1].background_images,
        vec![image(1, "1.png", ImageOrientation::Portrait), added]
    );
    assert_eq!(s.profiles[1].version, Some("v2".to_string()));
    assert_eq!(s.profiles[0], profile("x", Some("vx")));
}

#[test]
fn added_image_needs_its_profile() {
    let mut s = storage(vec![profile("a", Some("v1"))]);
    let added = image(2, "2.jpg", ImageOrientation::Landscape);
    assert_eq!(
        add_background_image(&mut s, "nope", added.clone()).map(|r| r.version),
        Err(Error::ProfileNotFound)
    );
    assert_eq!(s.profiles, vec![profile("a", Some("v1"))]);
    let r = add_background_image(&mut s, "a", added).unwrap();
    assert_eq!(r.version, s.profiles[0].version);
    assert_ne!(r.version, Some("v1".to_string()));
    assert_eq!(r.version.map(|v| v.len()), Some(36));
}

#[test]
fn removed_image_is_handed_back() {
    let mut stored = profile("a", Some("v1"));
    stored.background_images.push(image(1, "1.png", ImageOrientation::Portrait));
    stored.background_images.push(image(2, "2.png", ImageOrientation::Landscape));
    stored.background_images.push(image(1, "again.png", ImageOrientation::Landscape));
    let mut s = storage(vec![stored]);
    let r = remove_background_image_with(&mut s, "a", 1, "v2".to_string()).unwrap();
    assert_eq!(r.image, image(1, "1.png", ImageOrientation::Portrait));
    assert_eq!(r.version, VersionResponse { version: Some("v2".to_string()) });
    assert_eq!(
        s.profiles[0].background_images,
        vec![
            image(2, "2.png", ImageOrientation::Landscape),
            image(1, "again.png", ImageOrientation::Landscape)
        ]
    );
    assert_eq!(s.profiles[0].version, Some("v2".to_string()));
}

#[test]
fn removing_an_unknown_image_is_a_bad_request() {
    let mut stored = profile("a", Some("v1"));
    stored.background_images.push(image(1, "1.png", ImageOrientation::Portrait));
    let mut s = storage(vec![stored.clone()]);
    let unknown = DeleteBackgroundImageQuery { profile: "a".to_string(), id: 9 };
    assert_eq!(delete_background_image(&mut s, &unknown).map(|r| r.image), Err(Error::BadRequest));
    let nowhere = DeleteBackgroundImageQuery { profile: "b".to_string(), id: 1 };
    assert_eq!(
        delete_background_image(&mut s, &nowhere).map(|r| r.image),
        Err(Error::ProfileNotFound)
    );
    assert_eq!(s.profiles, vec![stored]);
    let known = DeleteBackgroundImageQuery { profile: "a".to_string(), id: 1 };
    let r = delete_background_image(&mut s, &known).unwrap();
    assert_eq!(r.image.filename, "1.png");
    assert_eq!(r.version.version, s.profiles[0].version);
    assert_ne!(r.version.version, Some("v1".to_string()));
    assert!(s.profiles[0].background_images.is_empty());
}

#[test]
fn listed_images_carry_their_address() {
    let mut stored = profile("a", None);
    stored.background_images.push(image(1, "1.png", ImageOrientation::Portrait));
    stored.background_images.push(image(2, "two.jpg", ImageOrientation::Landscape));
    let s = storage(vec![stored, profile("b", None)]);
    let r = get_background_images(&s, &ProfileQuery { profile: "a".to_string() }).unwrap();
    assert_eq!(
        r.images,
        vec![
            BackgroundImageInfo {
                id: 1,
                filename: "1.png".to_string(),
                orientation: ImageOrientation::Portrait,
                url: "/images/backgrounds/1.png".to_string(),
            },
            BackgroundImageInfo {
                id: 2,
                filename: "two.jpg".to_string(),
                orientation: ImageOrientation::Landscape,
                url: "/images/backgrounds/two.jpg".to_string(),
            },
        ]
    );
    let empty = get_background_images(&s, &ProfileQuery { profile: "b".to_string() }).unwrap();
    assert!(empty.images.is_empty());
    assert_eq!(
        get_background_images(&s, &ProfileQuery { profile: "c".to_string() }).map(|r| r.images),
        Err(Error::ProfileNotFound)
    );
}

#[test]
fn icon_is_set_on_the_first_bookmark_of_the_identifier() {
    let mut a = profile("a", Some("va"));
    a.bookmarks.push(bookmark(1, None));
    let mut b = profile("b", Some("vb"));
    b.bookmarks.push(bookmark(2, None));
    b.bookmarks.push(bookmark(ID, None));
    b.bookmarks.push(bookmark(ID, Some("later.png")));
    let mut s = storage(vec![a.clone(), b.clone()]);
    let r = set_icon_with(&mut s, ID, Some("favicon.png"), Some(&WIDE_PNG), "vc".to_string());
    let name = format!("{}.png", ID_TEXT);
    assert_eq!(r, Ok(IconUpdate { filename: name.clone(), stale: None }));
    let mut expected = b;
    expected.bookmarks[1].icon = Some(name);
    expected.version = Some("vc".to_string());
    assert_eq!(s.profiles, vec![a, expected]);
}

#[test]
fn icon_gives_the_profile_a_fresh_version() {
    let mut a = profile("a", Some("va"));
    a.bookmarks.push(bookmark(ID, None));
    let mut s = storage(vec![a, profile("b", Some("vb"))]);
    let r = set_icon(&mut s, ID, Some("favicon.png"), Some(&WIDE_PNG));
    assert_eq!(r, Ok(IconUpdate { filename: format!("{}.png", ID_TEXT), stale: None }));
    let first = s.profiles[0].version.clone();
    assert_ne!(first, Some("va".to_string()));
    assert_eq!(first.as_ref().map(|v| v.len()), Some(36));
    assert_eq!(s.profiles[1], profile("b", Some("vb")));
    assert!(set_icon(&mut s, ID, Some("favicon.png"), Some(&WIDE_PNG)).is_ok());
    assert_ne!(s.profiles[0].version, first);
}

#[test]
fn bookmark_is_found_in_its_place() {
    let mut a = profile("a", None);
    a.bookmarks.push(bookmark(1, None));
    let mut b = profile("b", None);
    b.bookmarks.push(bookmark(2, None));
    b.bookmarks.push(bookmark(ID, None));
    b.bookmarks.push(bookmark(ID, None));
    let mut c = profile("c", None);
    c.bookmarks.push(bookmark(ID, None));
    let s = storage(vec![a, b, c]);
    assert_eq!(find_bookmark(&s, ID), Some((1, 1)));
    assert_eq!(find_bookmark(&s, 1), Some((0, 0)));
    assert_eq!(find_bookmark(&s, 3), None);
}

#[test]
fn first_extension_stands_for_the_format() {
    assert_eq!(
        first_extension(Some(vec!["jpg".to_string(), "jpeg".to_string()])),
        Some("jpg".to_string())
    );
    assert_eq!(first_extension(Some(vec!["png".to_string()])), Some("png".to_string()));
    assert_eq!(first_extension(Some(vec![])), None);
    assert_eq!(first_extension(None), None);
}

#[test]
fn icon_of_another_name_becomes_stale() {
    let mut a = profile("a", None);
    a.bookmarks.push(bookmark(ID, Some("old.ico")));
    let mut s = storage(vec![a]);
    let name = format!("{}.png", ID_TEXT);
    let r = set_icon(&mut s, ID, Some("favicon.png"), Some(&WIDE_PNG));
    assert_eq!(r, Ok(IconUpdate { filename: name.clone(), stale: Some("old.ico".to_string()) }));
    let again = set_icon(&mut s, ID, Some("other.bin"), Some(&TALL_PNG));
    assert_eq!(again, Ok(IconUpdate { filename: name.clone(), stale: None }));
    let jpg = set_icon(&mut s, ID, Some("photo.jpg"), Some(&[]));
    assert_eq!(
        jpg,
        Ok(IconUpdate { filename: format!("{}.jpg", ID_TEXT), stale: Some(name) })
    );
}

#[test]
fn icon_is_refused_in_order_of_the_checks() {
    let mut a = profile("a", None);
    a.bookmarks.push(bookmark(ID, Some("old.ico")));
    let mut s = storage(vec![a.clone()]);
    assert_eq!(set_icon(&mut s, 5, None, None), Err(Error::BookmarkNotFound));
    assert_eq!(set_icon(&mut s, ID, None, Some(&WIDE_PNG)), Err(Error::BadRequest));
    assert_eq!(set_icon(&mut s, ID, Some("a.png"), None), Err(Error::BadRequest));
    assert_eq!(set_icon(&mut s, ID, Some("a.txt"), Some(b"text")), Err(Error::InvalidImageFormat));
    assert_eq!(
        set_icon_with(&mut s, ID, Some("a.txt"), Some(b"text"), "v".to_string()),
        Err(Error::InvalidImageFormat)
    );
    assert_eq!(s.profiles, vec![a]);
}
