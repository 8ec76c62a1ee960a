//! Profiles and what they hold: bookmarks, tags and background images.

use vstd::prelude::*;
use crate::ident::{fresh_token, is_token};

verus! {

/// How a background image lies: wider than high, or not.
#[derive(Debug, Clone, Copy, PartialEq, Eq, Structural)]
pub enum ImageOrientation {
    Landscape,
    Portrait,
}

/// A background image of a profile. The image itself is a file; the record
/// holds its name.
#[derive(Debug, PartialEq, Eq)]
pub struct BackgroundImage {
    pub id: u128,
    pub filename: String,
    pub orientation: ImageOrientation,
}

/// What a [`BackgroundImage`] holds.
pub struct BackgroundImageView {
    pub id: u128,
    pub filename: Seq<char>,
    pub orientation: ImageOrientation,
}

impl DeepView for BackgroundImage {
    type V = BackgroundImageView;

    open spec fn deep_view(&self) -> BackgroundImageView {
        BackgroundImageView {
            id: self.id,
            filename: self.filename@,
            orientation: self.orientation,
        }
    }
}

impl View for BackgroundImage {
    type V = BackgroundImageView;

    open spec fn view(&self) -> BackgroundImageView {
        self.deep_view()
    }
}

impl Clone for BackgroundImage {
    fn clone(&self) -> (r: Self)
        ensures
            r@ == self@,
    {
        BackgroundImage {
            id: self.id,
            filename: self.filename.clone(),
            orientation: self.orientation,
        }
    }
}

/// One bookmark of a profile.
#[derive(Debug, PartialEq, Eq)]
pub struct Bookmark {
    pub id: u128,
    pub title: String,
    pub search_title: Option<String>,
    pub url: String,
    /// The address of the same page inside the internal network.
    pub intranet_url: Option<String>,
    pub search_url: Option<String>,
    pub tags: Vec<String>,
    /// The file name of the icon, if one was stored.
    pub icon: Option<String>,
}

/// What a [`Bookmark`] holds.
pub struct BookmarkView {
    pub id: u128,
    pub title: Seq<char>,
    pub search_title: Option<Seq<char>>,
    pub url: Seq<char>,
    pub intranet_url: Option<Seq<char>>,
    pub search_url: Option<Seq<char>>,
    pub tags: Seq<Seq<char>>,
    pub icon: Option<Seq<char>>,
}

impl BookmarkView {
    /// The same bookmark with another icon.
    pub open spec fn with_icon(self, icon: Option<Seq<char>>) -> BookmarkView {
        BookmarkView { icon, ..self }
    }
}

impl DeepView for Bookmark {
    type V = BookmarkView;

    open spec fn deep_view(&self) -> BookmarkView {
        BookmarkView {
            id: self.id,
            title: self.title@,
            search_title: self.search_title.deep_view(),
            url: self.url@,
            intranet_url: self.intranet_url.deep_view(),
            search_url: self.search_url.deep_view(),
            tags: self.tags.deep_view(),
            icon: self.icon.deep_view(),
        }
    }
}

impl View for Bookmark {
    type V = BookmarkView;

    open spec fn view(&self) -> BookmarkView {
        self.deep_view()
    }
}

impl Clone for Bookmark {
    fn clone(&self) -> (r: Self)
        ensures
            r@ == self@,
    {
        let tags = self.tags.clone();
        Bookmark {
            id: self.id,
            title: self.title.clone(),
            search_title: self.search_title.clone(),
            url: self.url.clone(),
            intranet_url: self.intranet_url.clone(),
            search_url: self.search_url.clone(),
            tags,
            icon: self.icon.clone(),
        }
    }
}

/// A named collection of bookmarks with its settings.
#[derive(Debug, PartialEq, Eq)]
pub struct BookmarkProfile {
    /// The name, by which the profile is found.
    pub name: String,
    pub bookmarks: Vec<Bookmark>,
    pub tags: Vec<String>,
    /// The search address, with `{}` where the query goes.
    pub search_engine: String,
    /// An address to test whether the internal network can be reached.
    pub intranet_check_url: Option<String>,
    pub background_images: Vec<BackgroundImage>,
    /// A token that changes with every change of the profile, so that a
    /// client can tell a stale copy.
    pub version: Option<String>,
}

/// What a [`BookmarkProfile`] holds.
pub struct ProfileView {
    pub name: Seq<char>,
    pub bookmarks: Seq<BookmarkView>,
    pub tags: Seq<Seq<char>>,
    pub search_engine: Seq<char>,
    pub intranet_check_url: Option<Seq<char>>,
    pub background_images: Seq<BackgroundImageView>,
    pub version: Option<Seq<char>>,
}

impl ProfileView {
    /// The same profile under another version.
    pub open spec fn with_version(self, version: Option<Seq<char>>) -> ProfileView {
        ProfileView { version, ..self }
    }

    /// The same profile under another name.
    pub open spec fn with_name(self, name: Seq<char>) -> ProfileView {
        ProfileView { name, ..self }
    }

    /// The same profile with other background images.
    pub open spec fn with_background_images(
        self,
        background_images: Seq<BackgroundImageView>,
    ) -> ProfileView {
        ProfileView { background_images, ..self }
    }

    /// The same profile with other bookmarks.
    pub open spec fn with_bookmarks(self, bookmarks: Seq<BookmarkView>) -> ProfileView {
        ProfileView { bookmarks, ..self }
    }

    /// The profile that an empty store starts with, under `version`.
    pub open spec fn initial(version: Seq<char>) -> ProfileView {
        ProfileView {
            name: "Default"@,
            bookmarks: Seq::empty(),
            tags: Seq::empty(),
            search_engine: "https://www.google.com/search?q={}"@,
            intranet_check_url: None,
            background_images: Seq::empty(),
            version: Some(version),
        }
    }
}

impl DeepView for BookmarkProfile {
    type V = ProfileView;

    open spec fn deep_view(&self) -> ProfileView {
        ProfileView {
            name: self.name@,
            bookmarks: self.bookmarks.deep_view(),
            tags: self.tags.deep_view(),
            search_engine: self.search_engine@,
            intranet_check_url: self.intranet_check_url.deep_view(),
            background_images: self.background_images.deep_view(),
            version: self.version.deep_view(),
        }
    }
}

impl View for BookmarkProfile {
    type V = ProfileView;

    open spec fn view(&self) -> ProfileView {
        self.deep_view()
    }
}

impl Clone for BookmarkProfile {
    fn clone(&self) -> (r: Self)
        ensures
            r@ == self@,
    {
        let bookmarks = self.bookmarks.clone();
        let tags = self.tags.clone();
        let background_images = self.background_images.clone();
        BookmarkProfile {
            name: self.name.clone(),
            bookmarks,
            tags,
            search_engine: self.search_engine.clone(),
            intranet_check_url: self.intranet_check_url.clone(),
            background_images,
            version: self.version.clone(),
        }
    }
}

impl Default for BookmarkProfile {
    /// The profile named "Default", under a fresh version.
    fn default() -> (r: Self)
        ensures
            r@.version is Some,
            is_token(r@.version.unwrap()),
            r@ == ProfileView::initial(r@.version.unwrap()),
    {
        BookmarkProfile::initial(fresh_token())
    }
}

impl BookmarkProfile {
    /// The profile named "Default", under the given version.
    pub fn initial(version: String) -> (r: Self)
        ensures
            r@ == ProfileView::initial(version@),
    {
        let r = BookmarkProfile {
            name: String::from_str("Default"),
            bookmarks: Vec::new(),
            tags: Vec::new(),
            search_engine: String::from_str("https://www.google.com/search?q={}"),
            intranet_check_url: None,
            background_images: Vec::new(),
            version: Some(version),
        };
        assert(r.bookmarks.deep_view() =~= Seq::empty());
        assert(r.tags.deep_view() =~= Seq::empty());
        assert(r.background_images.deep_view() =~= Seq::empty());
        r
    }

    /// Puts the profile under the given version.
    pub fn set_version(&mut self, version: String)
        ensures
            final(self)@ == old(self)@.with_version(Some(version@)),
    {
        self.version = Some(version);
    }

    /// Gives the profile a fresh version if it has none. A profile stored
    /// before versions were kept has none.
    pub fn ensure_version(&mut self)
        ensures
            old(self)@.version is Some ==> final(self)@ == old(self)@,
            old(self)@.version is None ==> {
                &&& final(self)@.version is Some
                &&& is_token(final(self)@.version.unwrap())
                &&& final(self)@ == old(self)@.with_version(final(self)@.version)
            },
    {
        if self.version.is_none() {
            self.set_version(fresh_token());
        }
    }

    /// Puts the profile under a fresh version. Called after every change.
    pub fn regenerate_version(&mut self)
        ensures
            final(self)@.version is Some,
            is_token(final(self)@.version.unwrap()),
            final(self)@ == old(self)@.with_version(final(self)@.version),
    {
        self.set_version(fresh_token());
    }
}

} // verus!
