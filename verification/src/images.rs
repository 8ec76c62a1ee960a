//! Background images and bookmark icons.
//!
//! The images themselves are files that the caller writes and removes. Here
//! an upload is checked, the name of its file is made, and the profiles are
//! told of it.

use vstd::prelude::*;
use crate::api::{ProfileQuery, VersionResponse};
use crate::bookmark::{
    BackgroundImage, BackgroundImageView, BookmarkView, ImageOrientation, ProfileView,
};
use crate::error::Error;
use crate::ident::{fresh_token, hyphenated, id_text, is_token, random_id};
use crate::state::{first_named, has_profile, Storage};
use crate::text::{after_last_dot, joined, last_segment, str_eq};

verus! {

/// A request to add a background image to a profile.
#[derive(Debug, PartialEq, Eq)]
pub struct UploadBackgroundImageQuery {
    pub profile: String,
}

/// The answer to an added background image.
#[derive(Debug, PartialEq, Eq)]
pub struct UploadBackgroundImageResponse {
    pub image: BackgroundImage,
    pub version: Option<String>,
}

/// A request to remove a background image from a profile.
#[derive(Debug, PartialEq, Eq)]
pub struct DeleteBackgroundImageQuery {
    pub profile: String,
    pub id: u128,
}

/// A removed background image, whose file is no longer needed, and the
/// version of the profile after the removal.
#[derive(Debug, PartialEq, Eq)]
pub struct RemovedBackgroundImage {
    pub image: BackgroundImage,
    pub version: VersionResponse,
}

/// A background image with the address under which it is served.
#[derive(Debug, PartialEq, Eq)]
pub struct BackgroundImageInfo {
    pub id: u128,
    pub filename: String,
    pub orientation: ImageOrientation,
    pub url: String,
}

/// What a [`BackgroundImageInfo`] holds.
pub struct BackgroundImageInfoView {
    pub id: u128,
    pub filename: Seq<char>,
    pub orientation: ImageOrientation,
    pub url: Seq<char>,
}

impl DeepView for BackgroundImageInfo {
    type V = BackgroundImageInfoView;

    open spec fn deep_view(&self) -> BackgroundImageInfoView {
        BackgroundImageInfoView {
            id: self.id,
            filename: self.filename@,
            orientation: self.orientation,
            url: self.url@,
        }
    }
}

impl View for BackgroundImageInfo {
    type V = BackgroundImageInfoView;

    open spec fn view(&self) -> BackgroundImageInfoView {
        self.deep_view()
    }
}

/// The background images of a profile.
#[derive(Debug, PartialEq, Eq)]
pub struct BackgroundImageListResponse {
    pub images: Vec<BackgroundImageInfo>,
}

/// The file of a new icon, and the file of the icon that it replaces, if
/// that is another file.
#[derive(Debug, PartialEq, Eq)]
pub struct IconUpdate {
    pub filename: String,
    pub stale: Option<String>,
}

/// The extensions of the image format that
/// `image::ImageFormat::from_extension` finds for the extension `ext`.
pub uninterp spec fn extensions_by_name(ext: Seq<char>) -> Option<Seq<Seq<char>>>;

/// The extensions of the image format that `image::guess_format` finds for
/// the content `bytes`.
pub uninterp spec fn extensions_by_content(bytes: Seq<u8>) -> Option<Seq<Seq<char>>>;

/// The width and height of the image that `image::load_from_memory`
/// decodes from `bytes`.
pub uninterp spec fn decoded_size(bytes: Seq<u8>) -> Option<(u32, u32)>;

/// The image format that the `image` crate knows under the extension
/// `ext`, by `ImageFormat::from_extension`, given as the extensions that
/// `ImageFormat::extensions_str` lists for it.
///
/// Taken on trust: the result depends on `ext` alone. What it is, is not
/// said here; it goes by the name [`extensions_by_name`].
#[verifier::external_body]
pub(crate) fn format_by_name(ext: &str) -> (r: Option<Vec<String>>)
    ensures
        r.deep_view() == extensions_by_name(ext@),
{
    match image::ImageFormat::from_extension(ext) {
        Some(format) => Some(format.extensions_str().iter().map(|e| e.to_string()).collect()),
        None => None,
    }
}

/// The image format that `image::guess_format` tells from the first bytes
/// of `bytes`, given as the extensions that `ImageFormat::extensions_str`
/// lists for it.
///
/// Taken on trust: the result depends on `bytes` alone. What it is, is not
/// said here; it goes by the name [`extensions_by_content`].
#[verifier::external_body]
pub(crate) fn format_by_content(bytes: &[u8]) -> (r: Option<Vec<String>>)
    ensures
        r.deep_view() == extensions_by_content(bytes@),
{
    match image::guess_format(bytes) {
        Ok(format) => Some(format.extensions_str().iter().map(|e| e.to_string()).collect()),
        Err(_) => None,
    }
}

/// The width and height that `image::GenericImageView::dimensions` gives
/// for the image that `image::load_from_memory` decodes from `bytes`; none
/// where it does not decode.
///
/// Taken on trust: the result depends on `bytes` alone. That is so as long
/// as no decoding hook is registered with the `image` crate in the process;
/// this crate registers none. What the result is, is not said here; it goes
/// by the name [`decoded_size`].
#[verifier::external_body]
pub(crate) fn image_size(bytes: &[u8]) -> (r: Option<(u32, u32)>)
    ensures
        r == decoded_size(bytes@),
{
    match image::load_from_memory(bytes) {
        Ok(decoded) => Some(image::GenericImageView::dimensions(&decoded)),
        Err(_) => None,
    }
}

/// The extension that stands for a format: the first of its extensions.
/// A format without an extension counts as unknown.
pub open spec fn canonical_extension(format: Option<Seq<Seq<char>>>) -> Option<Seq<char>> {
    match format {
        Some(extensions) if extensions.len() > 0 => Some(extensions[0]),
        _ => None,
    }
}

/// The extension under which an upload is stored: that of the format that
/// the file name tells, or else of the format that the content tells.
pub open spec fn detected_extension(filename: Seq<char>, content: Seq<u8>) -> Option<Seq<char>> {
    match canonical_extension(extensions_by_name(last_segment(filename))) {
        Some(ext) => Some(ext),
        None => canonical_extension(extensions_by_content(content)),
    }
}

/// How an image of the given size lies.
pub open spec fn orientation(width: u32, height: u32) -> ImageOrientation {
    if width > height {
        ImageOrientation::Landscape
    } else {
        ImageOrientation::Portrait
    }
}

/// The name of the file that holds the image of identifier `id`.
pub open spec fn stored_name(id: u128, extension: Seq<char>) -> Seq<char> {
    hyphenated(id) + seq!['.'] + extension
}

/// The address under which the background image in `filename` is served.
pub open spec fn served_url(filename: Seq<char>) -> Seq<char> {
    "/images/backgrounds/"@ + filename
}

/// The bytes of an upload, if there are any.
pub open spec fn bytes_of(content: Option<&[u8]>) -> Option<Seq<u8>> {
    match content {
        Some(bytes) => Some(bytes@),
        None => None,
    }
}

/// The extension that stands for a format: the first of its extensions.
pub fn first_extension(format: Option<Vec<String>>) -> (r: Option<String>)
    ensures
        r.deep_view() == canonical_extension(format.deep_view()),
{
    match format {
        Some(extensions) => if extensions.len() > 0 {
            Some(extensions[0].clone())
        } else {
            None
        },
        None => None,
    }
}

/// The extension under which an upload is stored.
pub fn detect_extension(filename: &str, content: &[u8]) -> (r: Option<String>)
    ensures
        r.deep_view() == detected_extension(filename@, content@),
{
    match first_extension(format_by_name(after_last_dot(filename))) {
        Some(ext) => Some(ext),
        None => first_extension(format_by_content(content)),
    }
}

/// How an image of the given size lies.
pub fn orientation_of(width: u32, height: u32) -> (r: ImageOrientation)
    ensures
        r == orientation(width, height),
{
    if width > height {
        ImageOrientation::Landscape
    } else {
        ImageOrientation::Portrait
    }
}

/// The name of the file that holds the image of identifier `id`.
pub fn stored_filename(id: u128, extension: &str) -> (r: String)
    ensures
        r@ == stored_name(id, extension@),
{
    let mut name = id_text(id);
    proof {
        reveal_strlit(".");
    }
    name.append(".");
    name.append(extension);
    name
}

/// The record of an upload for the profile `profile` under the identifier
/// `id`, or why the upload is refused.
pub open spec fn upload_checked(
    profiles: Seq<ProfileView>,
    profile: Seq<char>,
    filename: Option<Seq<char>>,
    content: Option<Seq<u8>>,
    id: u128,
) -> Result<BackgroundImageView, Error> {
    if !has_profile(profiles, profile) {
        Err(Error::ProfileNotFound)
    } else if filename is None || content is None {
        Err(Error::BadRequest)
    } else {
        match detected_extension(filename.unwrap(), content.unwrap()) {
            None => Err(Error::InvalidImageFormat),
            Some(ext) => match decoded_size(content.unwrap()) {
                None => Err(Error::InvalidImageFormat),
                Some((width, height)) => Ok(
                    BackgroundImageView {
                        id,
                        filename: stored_name(id, ext),
                        orientation: orientation(width, height),
                    },
                ),
            },
        }
    }
}

/// What a checked upload holds.
pub open spec fn upload_answer(r: Result<BackgroundImage, Error>) -> Result<
    BackgroundImageView,
    Error,
> {
    match r {
        Ok(image) => Ok(image@),
        Err(e) => Err(e),
    }
}

/// Checks an uploaded background image for the profile that `params`
/// names, and makes its record under the identifier `id`. The upload must
/// come with a file name and a content, the format must be known by the
/// name or by the content, and the content must decode. The state is not
/// changed: the caller writes the content to the file that the record
/// names, and then adds the record with [`add_background_image`].
pub fn upload_background_image_with(
    storage: &Storage,
    params: &UploadBackgroundImageQuery,
    filename: Option<&str>,
    content: Option<&[u8]>,
    id: u128,
) -> (r: Result<BackgroundImage, Error>)
    ensures
        upload_answer(r) == upload_checked(
            storage@.profiles,
            params.profile@,
            filename.deep_view(),
            bytes_of(content),
            id,
        ),
{
    if storage.find_profile(params.profile.as_str()).is_none() {
        return Err(Error::ProfileNotFound);
    }
    let (filename, content) = match (filename, content) {
        (Some(filename), Some(content)) => (filename, content),
        _ => {
            return Err(Error::BadRequest);
        },
    };
    let extension = match detect_extension(filename, content) {
        Some(extension) => extension,
        None => {
            return Err(Error::InvalidImageFormat);
        },
    };
    let (width, height) = match image_size(content) {
        Some(size) => size,
        None => {
            return Err(Error::InvalidImageFormat);
        },
    };
    Ok(
        BackgroundImage {
            id,
            filename: stored_filename(id, extension.as_str()),
            orientation: orientation_of(width, height),
        },
    )
}

/// Checks an uploaded background image and makes its record under a fresh
/// identifier.
pub fn upload_background_image(
    storage: &Storage,
    params: &UploadBackgroundImageQuery,
    filename: Option<&str>,
    content: Option<&[u8]>,
) -> (r: Result<BackgroundImage, Error>)
    ensures
        exists|id: u128|
            upload_answer(r) == #[trigger] upload_checked(
                storage@.profiles,
                params.profile@,
                filename.deep_view(),
                bytes_of(content),
                id,
            ),
{
    upload_background_image_with(storage, params, filename, content, random_id())
}

/// The profiles after `image` was added to the profile named `profile`
/// under `version`, and the answer: the image and the new version.
pub open spec fn image_added(
    profiles: Seq<ProfileView>,
    profile: Seq<char>,
    image: BackgroundImageView,
    version: Seq<char>,
) -> (Seq<ProfileView>, Result<(BackgroundImageView, Option<Seq<char>>), Error>) {
    if !has_profile(profiles, profile) {
        (profiles, Err(Error::ProfileNotFound))
    } else {
        let at = first_named(profiles, profile);
        let images = profiles[at].background_images.push(image);
        (
            profiles.update(
                at,
                profiles[at].with_background_images(images).with_version(Some(version)),
            ),
            Ok((image, Some(version))),
        )
    }
}

/// What the answer to an added image holds.
pub open spec fn added_answer(r: Result<UploadBackgroundImageResponse, Error>) -> Result<
    (BackgroundImageView, Option<Seq<char>>),
    Error,
> {
    match r {
        Ok(response) => Ok((response.image@, response.version.deep_view())),
        Err(e) => Err(e),
    }
}

/// Adds `image` to the background images of the profile named `profile`,
/// and puts the profile under `version`.
pub fn add_background_image_with(
    storage: &mut Storage,
    profile: &str,
    image: BackgroundImage,
    version: String,
) -> (r: Result<UploadBackgroundImageResponse, Error>)
    ensures
        added_answer(r) == image_added(old(storage)@.profiles, profile@, image@, version@).1,
        final(storage)@ == old(storage)@.with_profiles(
            image_added(old(storage)@.profiles, profile@, image@, version@).0,
        ),
{
    let ghost before = storage@.profiles;
    match storage.get_profile_mut(profile) {
        None => Err(Error::ProfileNotFound),
        Some(stored) => {
            let ghost images = stored.background_images.deep_view();
            stored.background_images.push(image.clone());
            assert(stored.background_images.deep_view() =~= images.push(image@));
            stored.set_version(version.clone());
            assert(storage.profiles.deep_view() =~= before.update(
                first_named(before, profile@),
                before[first_named(before, profile@)].with_background_images(
                    images.push(image@),
                ).with_version(Some(version@)),
            ));
            Ok(UploadBackgroundImageResponse { image, version: Some(version) })
        },
    }
}

/// Adds `image` to the background images of the profile named `profile`,
/// and puts the profile under a fresh version.
pub fn add_background_image(storage: &mut Storage, profile: &str, image: BackgroundImage) -> (r:
    Result<UploadBackgroundImageResponse, Error>)
    ensures
        exists|version: Seq<char>|
            {
                let step = #[trigger] image_added(
                    old(storage)@.profiles,
                    profile@,
                    image@,
                    version,
                );
                &&& is_token(version)
                &&& added_answer(r) == step.1
                &&& final(storage)@ == old(storage)@.with_profiles(step.0)
            },
{
    add_background_image_with(storage, profile, image, fresh_token())
}

/// Whether some image has the identifier.
pub open spec fn has_image(images: Seq<BackgroundImageView>, id: u128) -> bool {
    exists|i: int| 0 <= i < images.len() && (#[trigger] images[i]).id == id
}

/// Whether the image at `at` is the first that has the identifier.
#[verifier::inline]
pub open spec fn is_first_image(images: Seq<BackgroundImageView>, id: u128, at: int) -> bool {
    &&& 0 <= at < images.len()
    &&& images[at].id == id
    &&& forall|j: int| 0 <= j < at ==> (#[trigger] images[j]).id != id
}

/// The place of the first image that has the identifier.
pub open spec fn first_image(images: Seq<BackgroundImageView>, id: u128) -> int {
    choose|at: int| is_first_image(images, id, at)
}

/// There is one first image of an identifier.
pub proof fn lemma_first_image(images: Seq<BackgroundImageView>, id: u128, at: int)
    requires
        is_first_image(images, id, at),
    ensures
        first_image(images, id) == at,
        has_image(images, id),
{
}

/// The profiles after the image of identifier `id` was removed from the
/// profile named `profile` under `version`, and the answer: the removed
/// image and the new version. An identifier that the profile does not hold
/// is an error.
pub open spec fn image_removed(
    profiles: Seq<ProfileView>,
    profile: Seq<char>,
    id: u128,
    version: Seq<char>,
) -> (Seq<ProfileView>, Result<(BackgroundImageView, Option<Seq<char>>), Error>) {
    if !has_profile(profiles, profile) {
        (profiles, Err(Error::ProfileNotFound))
    } else {
        let at = first_named(profiles, profile);
        let images = profiles[at].background_images;
        if !has_image(images, id) {
            (profiles, Err(Error::BadRequest))
        } else {
            let gone = first_image(images, id);
            (
                profiles.update(
                    at,
                    profiles[at].with_background_images(images.remove(gone)).with_version(
                        Some(version),
                    ),
                ),
                Ok((images[gone], Some(version))),
            )
        }
    }
}

/// What the answer to a removed image holds.
pub open spec fn removed_answer(r: Result<RemovedBackgroundImage, Error>) -> Result<
    (BackgroundImageView, Option<Seq<char>>),
    Error,
> {
    match r {
        Ok(removed) => Ok((removed.image@, removed.version.version.deep_view())),
        Err(e) => Err(e),
    }
}

/// The place of the first image that has the identifier.
fn find_image(images: &Vec<BackgroundImage>, id: u128) -> (r: Option<usize>)
    ensures
        r is Some == has_image(images.deep_view(), id),
        r matches Some(at) ==> is_first_image(images.deep_view(), id, at as int),
{
    let mut i: usize = 0;
    while i < images.len()
        invariant
            i <= images.len(),
            forall|j: int| 0 <= j < i ==> (#[trigger] images.deep_view()[j]).id != id,
        decreases images.len() - i,
    {
        if images[i].id == id {
            assert(images.deep_view()[i as int].id == id);
            return Some(i);
        }
        i += 1;
    }
    None
}

/// Removes the image of identifier `id` from the background images of the
/// profile named `profile`, and puts the profile under `version`.
pub fn remove_background_image_with(
    storage: &mut Storage,
    profile: &str,
    id: u128,
    version: String,
) -> (r: Result<RemovedBackgroundImage, Error>)
    ensures
        removed_answer(r) == image_removed(old(storage)@.profiles, profile@, id, version@).1,
        final(storage)@ == old(storage)@.with_profiles(
            image_removed(old(storage)@.profiles, profile@, id, version@).0,
        ),
{
    let ghost before = storage@.profiles;
    match storage.get_profile_mut(profile) {
        None => Err(Error::ProfileNotFound),
        Some(stored) => {
            let ghost images = stored.background_images.deep_view();
            match find_image(&stored.background_images, id) {
                None => {
                    assert(storage.profiles@ =~= old(storage).profiles@);
                    Err(Error::BadRequest)
                },
                Some(gone) => {
                    proof {
                        lemma_first_image(images, id, gone as int);
                    }
                    let image = stored.background_images.remove(gone);
                    assert(stored.background_images.deep_view() =~= images.remove(gone as int));
                    stored.set_version(version.clone());
                    assert(storage.profiles.deep_view() =~= before.update(
                        first_named(before, profile@),
                        before[first_named(before, profile@)].with_background_images(
                            images.remove(gone as int),
                        ).with_version(Some(version@)),
                    ));
                    Ok(
                        RemovedBackgroundImage {
                            image,
                            version: VersionResponse { version: Some(version) },
                        },
                    )
                },
            }
        },
    }
}

/// Removes the image of identifier `id` from the background images of the
/// profile named `profile`, and puts the profile under a fresh version.
pub fn remove_background_image(storage: &mut Storage, profile: &str, id: u128) -> (r: Result<
    RemovedBackgroundImage,
    Error,
>)
    ensures
        exists|version: Seq<char>|
            {
                let step = #[trigger] image_removed(old(storage)@.profiles, profile@, id, version);
                &&& is_token(version)
                &&& removed_answer(r) == step.1
                &&& final(storage)@ == old(storage)@.with_profiles(step.0)
            },
{
    remove_background_image_with(storage, profile, id, fresh_token())
}

/// Answers a request to remove a background image. The caller removes the
/// file of the image that was removed.
pub fn delete_background_image(storage: &mut Storage, params: &DeleteBackgroundImageQuery) -> (r:
    Result<RemovedBackgroundImage, Error>)
    ensures
        exists|version: Seq<char>|
            {
                let step = #[trigger] image_removed(
                    old(storage)@.profiles,
                    params.profile@,
                    params.id,
                    version,
                );
                &&& is_token(version)
                &&& removed_answer(r) == step.1
                &&& final(storage)@ == old(storage)@.with_profiles(step.0)
            },
{
    remove_background_image(storage, params.profile.as_str(), params.id)
}

/// The images with the addresses under which they are served.
pub open spec fn listed(images: Seq<BackgroundImageView>) -> Seq<BackgroundImageInfoView> {
    Seq::new(
        images.len(),
        |i: int|
            BackgroundImageInfoView {
                id: images[i].id,
                filename: images[i].filename,
                orientation: images[i].orientation,
                url: served_url(images[i].filename),
            },
    )
}

/// The background images of the profile that `params` names.
pub fn get_background_images(storage: &Storage, params: &ProfileQuery) -> (r: Result<
    BackgroundImageListResponse,
    Error,
>)
    ensures
        r is Ok == has_profile(storage@.profiles, params.profile@),
        r matches Err(e) ==> e == Error::ProfileNotFound,
        r matches Ok(response) ==> response.images.deep_view() == listed(
            storage@.profiles[first_named(storage@.profiles, params.profile@)].background_images,
        ),
{
    let profile = match storage.get_profile(params.profile.as_str()) {
        Some(profile) => profile,
        None => {
            return Err(Error::ProfileNotFound);
        },
    };
    let ghost stored = profile.background_images.deep_view();
    let mut images: Vec<BackgroundImageInfo> = Vec::new();
    let mut i: usize = 0;
    while i < profile.background_images.len()
        invariant
            i <= profile.background_images.len(),
            images.len() == i,
            stored == profile.background_images.deep_view(),
            forall|j: int| 0 <= j < i ==> (#[trigger] images[j])@ == listed(stored)[j],
        decreases profile.background_images.len() - i,
    {
        let image = &profile.background_images[i];
        images.push(
            BackgroundImageInfo {
                id: image.id,
                filename: image.filename.clone(),
                orientation: image.orientation,
                url: joined("/images/backgrounds/", image.filename.as_str()),
            },
        );
        i += 1;
    }
    Ok(BackgroundImageListResponse { images })
}

/// Whether some bookmark has the identifier.
pub open spec fn has_bookmark(bookmarks: Seq<BookmarkView>, id: u128) -> bool {
    exists|i: int| 0 <= i < bookmarks.len() && (#[trigger] bookmarks[i]).id == id
}

/// Whether the bookmark at `at` is the first that has the identifier.
#[verifier::inline]
pub open spec fn is_first_bookmark(bookmarks: Seq<BookmarkView>, id: u128, at: int) -> bool {
    &&& 0 <= at < bookmarks.len()
    &&& bookmarks[at].id == id
    &&& forall|j: int| 0 <= j < at ==> (#[trigger] bookmarks[j]).id != id
}

/// Whether some profile holds a bookmark of the identifier.
pub open spec fn holds_bookmark(profiles: Seq<ProfileView>, id: u128) -> bool {
    exists|p: int| 0 <= p < profiles.len() && has_bookmark((#[trigger] profiles[p]).bookmarks, id)
}

/// Whether the bookmark at `at` of the profile at `holder` is the first of
/// the identifier in the first profile that holds one.
#[verifier::inline]
pub open spec fn is_bookmark_place(
    profiles: Seq<ProfileView>,
    id: u128,
    holder: int,
    at: int,
) -> bool {
    &&& 0 <= holder < profiles.len()
    &&& is_first_bookmark(profiles[holder].bookmarks, id, at)
    &&& forall|q: int| 0 <= q < holder ==> !has_bookmark((#[trigger] profiles[q]).bookmarks, id)
}

/// The place of the bookmark of the identifier: the profile and the
/// bookmark in it.
pub open spec fn bookmark_place(profiles: Seq<ProfileView>, id: u128) -> (int, int) {
    choose|place: (int, int)| is_bookmark_place(profiles, id, place.0, place.1)
}

/// There is one place of a bookmark.
pub proof fn lemma_bookmark_place(profiles: Seq<ProfileView>, id: u128, holder: int, at: int)
    requires
        is_bookmark_place(profiles, id, holder, at),
    ensures
        bookmark_place(profiles, id) == (holder, at),
        holds_bookmark(profiles, id),
{
    let here = (holder, at);
    assert(is_bookmark_place(profiles, id, here.0, here.1));
}

/// Where a bookmark of the identifier is held, it has its place.
pub proof fn lemma_has_place(profiles: Seq<ProfileView>, id: u128)
    requires
        holds_bookmark(profiles, id),
    ensures
        is_bookmark_place(
            profiles,
            id,
            bookmark_place(profiles, id).0,
            bookmark_place(profiles, id).1,
        ),
{
    let p = choose|p: int|
        0 <= p < profiles.len() && has_bookmark((#[trigger] profiles[p]).bookmarks, id);
    lemma_first_holder(profiles, id, p);
}

proof fn lemma_first_holder(profiles: Seq<ProfileView>, id: u128, holder: int)
    requires
        0 <= holder < profiles.len(),
        has_bookmark(profiles[holder].bookmarks, id),
    ensures
        exists|place: (int, int)| is_bookmark_place(profiles, id, place.0, place.1),
    decreases holder,
{
    if exists|q: int| 0 <= q < holder && has_bookmark((#[trigger] profiles[q]).bookmarks, id) {
        let q = choose|q: int|
            0 <= q < holder && has_bookmark((#[trigger] profiles[q]).bookmarks, id);
        lemma_first_holder(profiles, id, q);
    } else {
        let bookmarks = profiles[holder].bookmarks;
        let b = choose|b: int| 0 <= b < bookmarks.len() && (#[trigger] bookmarks[b]).id == id;
        lemma_first_bookmark(bookmarks, id, b);
        let first = choose|first: int| is_first_bookmark(bookmarks, id, first);
        let place = (holder, first);
        assert(is_bookmark_place(profiles, id, place.0, place.1));
    }
}

proof fn lemma_first_bookmark(bookmarks: Seq<BookmarkView>, id: u128, at: int)
    requires
        0 <= at < bookmarks.len(),
        bookmarks[at].id == id,
    ensures
        exists|first: int| is_first_bookmark(bookmarks, id, first),
    decreases at,
{
    if exists|j: int| 0 <= j < at && (#[trigger] bookmarks[j]).id == id {
        let j = choose|j: int| 0 <= j < at && (#[trigger] bookmarks[j]).id == id;
        lemma_first_bookmark(bookmarks, id, j);
    } else {
        assert(is_first_bookmark(bookmarks, id, at));
    }
}

/// The icon file that a new icon under `name` makes useless.
pub open spec fn stale_icon(stored: Option<Seq<char>>, name: Seq<char>) -> Option<Seq<char>> {
    if stored is Some && stored != Some(name) {
        stored
    } else {
        None
    }
}

/// The profiles after the bookmark of identifier `id` was given the icon
/// of an upload and its profile was put under `version`, and the answer:
/// the name of the icon's file, and the file that it makes useless.
pub open spec fn icon_set(
    profiles: Seq<ProfileView>,
    id: u128,
    filename: Option<Seq<char>>,
    content: Option<Seq<u8>>,
    version: Seq<char>,
) -> (Seq<ProfileView>, Result<(Seq<char>, Option<Seq<char>>), Error>) {
    if !holds_bookmark(profiles, id) {
        (profiles, Err(Error::BookmarkNotFound))
    } else if filename is None || content is None {
        (profiles, Err(Error::BadRequest))
    } else {
        match detected_extension(filename.unwrap(), content.unwrap()) {
            None => (profiles, Err(Error::InvalidImageFormat)),
            Some(ext) => {
                let name = stored_name(id, ext);
                let (holder, at) = bookmark_place(profiles, id);
                let bookmarks = profiles[holder].bookmarks;
                (
                    profiles.update(
                        holder,
                        profiles[holder].with_bookmarks(
                            bookmarks.update(at, bookmarks[at].with_icon(Some(name))),
                        ).with_version(Some(version)),
                    ),
                    Ok((name, stale_icon(bookmarks[at].icon, name))),
                )
            },
        }
    }
}

/// What the answer to a new icon holds.
pub open spec fn icon_answer(r: Result<IconUpdate, Error>) -> Result<
    (Seq<char>, Option<Seq<char>>),
    Error,
> {
    match r {
        Ok(update) => Ok((update.filename@, update.stale.deep_view())),
        Err(e) => Err(e),
    }
}

/// The place of the bookmark of the identifier: the profile and the
/// bookmark in it.
pub fn find_bookmark(storage: &Storage, id: u128) -> (r: Option<(usize, usize)>)
    ensures
        r is Some == holds_bookmark(storage@.profiles, id),
        r matches Some((holder, at)) ==> is_bookmark_place(
            storage@.profiles,
            id,
            holder as int,
            at as int,
        ),
{
    let ghost profiles = storage@.profiles;
    let mut p: usize = 0;
    while p < storage.profiles.len()
        invariant
            p <= storage.profiles.len(),
            profiles == storage@.profiles,
            forall|q: int| 0 <= q < p ==> !has_bookmark((#[trigger] profiles[q]).bookmarks, id),
        decreases storage.profiles.len() - p,
    {
        let bookmarks = &storage.profiles[p].bookmarks;
        let mut b: usize = 0;
        while b < bookmarks.len()
            invariant
                b <= bookmarks.len(),
                p < storage.profiles.len(),
                profiles == storage@.profiles,
                bookmarks.deep_view() == profiles[p as int].bookmarks,
                forall|q: int|
                    0 <= q < p ==> !has_bookmark((#[trigger] profiles[q]).bookmarks, id),
                forall|j: int| 0 <= j < b ==> (#[trigger] profiles[p as int].bookmarks[j]).id != id,
            decreases bookmarks.len() - b,
        {
            if bookmarks[b].id == id {
                proof {
                    lemma_bookmark_place(profiles, id, p as int, b as int);
                }
                return Some((p, b));
            }
            b += 1;
        }
        p += 1;
    }
    None
}

/// Gives the bookmark of identifier `id` the icon of an upload, and puts
/// the profile that holds the bookmark under `version`. The upload must
/// come with a file name and a content, and the format must be known by the
/// name or by the content. The caller removes the stale file, if any, and
/// writes the content to the file that the answer names.
pub fn set_icon_with(
    storage: &mut Storage,
    id: u128,
    filename: Option<&str>,
    content: Option<&[u8]>,
    version: String,
) -> (r: Result<IconUpdate, Error>)
    ensures
        icon_answer(r) == icon_set(
            old(storage)@.profiles,
            id,
            filename.deep_view(),
            bytes_of(content),
            version@,
        ).1,
        final(storage)@ == old(storage)@.with_profiles(
            icon_set(
                old(storage)@.profiles,
                id,
                filename.deep_view(),
                bytes_of(content),
                version@,
            ).0,
        ),
{
    let ghost before = storage@.profiles;
    let (holder, at) = match find_bookmark(storage, id) {
        Some(place) => place,
        None => {
            return Err(Error::BookmarkNotFound);
        },
    };
    proof {
        lemma_bookmark_place(before, id, holder as int, at as int);
    }
    let (filename, content) = match (filename, content) {
        (Some(filename), Some(content)) => (filename, content),
        _ => {
            return Err(Error::BadRequest);
        },
    };
    let extension = match detect_extension(filename, content) {
        Some(extension) => extension,
        None => {
            return Err(Error::InvalidImageFormat);
        },
    };
    let name = stored_filename(id, extension.as_str());
    let stale = match &storage.profiles[holder].bookmarks[at].icon {
        Some(stored) => if str_eq(stored.as_str(), name.as_str()) {
            None
        } else {
            Some(stored.clone())
        },
        None => None,
    };
    let ghost bookmarks = before[holder as int].bookmarks;
    let profile = &mut storage.profiles[holder];
    let bookmark = &mut profile.bookmarks[at];
    bookmark.icon = Some(name.clone());
    assert(profile.bookmarks.deep_view() =~= bookmarks.update(
        at as int,
        bookmarks[at as int].with_icon(Some(name@)),
    ));
    profile.set_version(version);
    assert(storage.profiles.deep_view() =~= before.update(
        holder as int,
        before[holder as int].with_bookmarks(
            bookmarks.update(at as int, bookmarks[at as int].with_icon(Some(name@))),
        ).with_version(Some(version@)),
    ));
    Ok(IconUpdate { filename: name, stale })
}

/// Gives the bookmark of identifier `id` the icon of an upload, and puts
/// the profile that holds the bookmark under a fresh version.
pub fn set_icon(
    storage: &mut Storage,
    id: u128,
    filename: Option<&str>,
    content: Option<&[u8]>,
) -> (r: Result<IconUpdate, Error>)
    ensures
        exists|version: Seq<char>|
            {
                let step = #[trigger] icon_set(
                    old(storage)@.profiles,
                    id,
                    filename.deep_view(),
                    bytes_of(content),
                    version,
                );
                &&& is_token(version)
                &&& icon_answer(r) == step.1
                &&& final(storage)@ == old(storage)@.with_profiles(step.0)
            },
{
    set_icon_with(storage, id, filename, content, fresh_token())
}

} // verus!
