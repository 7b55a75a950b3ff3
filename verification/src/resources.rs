//! External resources, modelled as data.
//!
//! Loading images and theme files from disk is input/output that the
//! verified core never performs. The caller loads whatever the document may
//! refer to and registers it here; the builder then resolves paths against
//! this store, and a path that was not registered fails exactly like a file
//! that could not be loaded.

use vstd::prelude::*;
use vstd::string::*;
use crate::strutil::str_eq;
use crate::theme::{PresentationTheme, ThemeA};

verus! {

/// A handle to a loaded image, identified by the path it was loaded from.
#[derive(Debug)]
pub struct Image {
    pub path: String,
}

impl View for Image {
    type V = Seq<char>;

    open spec fn view(&self) -> Seq<char> {
        self.path@
    }
}

impl Clone for Image {
    fn clone(&self) -> (r: Self)
        ensures
            r@ == self@,
    {
        Image { path: self.path.clone() }
    }
}

/// An image could not be resolved.
#[derive(Debug)]
pub struct LoadImageError {
    pub path: String,
}

impl View for LoadImageError {
    type V = Seq<char>;

    open spec fn view(&self) -> Seq<char> {
        self.path@
    }
}

/// A theme file could not be resolved.
#[derive(Debug)]
pub struct LoadThemeError {
    pub path: String,
}

impl View for LoadThemeError {
    type V = Seq<char>;

    open spec fn view(&self) -> Seq<char> {
        self.path@
    }
}

/// One theme registered under a path.
#[derive(Debug)]
pub struct ThemeEntry {
    pub path: String,
    pub theme: PresentationTheme,
}

/// The store of pre-loaded external resources.
#[derive(Debug)]
pub struct Resources {
    pub base_path: String,
    pub image_paths: Vec<String>,
    pub themes: Vec<ThemeEntry>,
}

/// Whether some registered image path equals `path`.
pub open spec fn has_image(paths: Seq<String>, path: Seq<char>) -> bool {
    exists|i: int| 0 <= i < paths.len() && paths[i]@ == path
}

/// The first theme registered under `path`, if any.
pub open spec fn theme_lookup(entries: Seq<ThemeEntry>, path: Seq<char>) -> Option<ThemeA>
    decreases entries.len(),
{
    if entries.len() == 0 {
        None
    } else if entries[0].path@ == path {
        Some(entries[0].theme@)
    } else {
        theme_lookup(entries.skip(1), path)
    }
}

impl Resources {
    /// An empty store rooted at `base_path`.
    pub fn new(base_path: &str) -> (r: Resources)
        ensures
            r.base_path@ == base_path@,
            r.image_paths@.len() == 0,
            r.themes@.len() == 0,
    {
        Resources { base_path: String::from_str(base_path), image_paths: Vec::new(), themes: Vec::new() }
    }

    /// Register an image the caller has loaded.
    pub fn register_image(&mut self, path: String)
        ensures
            final(self).image_paths@ == old(self).image_paths@.push(path),
            final(self).themes@ == old(self).themes@,
            final(self).base_path == old(self).base_path,
    {
        self.image_paths.push(path);
    }

    /// Register a theme the caller has loaded from a file.
    pub fn register_theme(&mut self, path: String, theme: PresentationTheme)
        ensures
            final(self).themes@ == old(self).themes@.push(ThemeEntry { path, theme }),
            final(self).image_paths@ == old(self).image_paths@,
            final(self).base_path == old(self).base_path,
    {
        self.themes.push(ThemeEntry { path, theme });
    }

    /// Resolve an image path: a handle for a registered path, an error for
    /// any other.
    pub fn image(&self, path: &str) -> (r: Result<Image, LoadImageError>)
        ensures
            has_image(self.image_paths@, path@) <==> r is Ok,
            r matches Ok(img) ==> img@ == path@,
            r matches Err(e) ==> e@ == path@,
    {
        let mut i: usize = 0;
        while i < self.image_paths.len()
            invariant
                i <= self.image_paths@.len(),
                forall|j: int| 0 <= j < i ==> self.image_paths@[j]@ != path@,
            decreases self.image_paths@.len() - i,
        {
            if str_eq(self.image_paths[i].as_str(), path) {
                return Ok(Image { path: String::from_str(path) });
            }
            i = i + 1;
        }
        Err(LoadImageError { path: String::from_str(path) })
    }

    /// Resolve a theme path: the registered theme, or an error.
    pub fn theme(&self, path: &str) -> (r: Result<PresentationTheme, LoadThemeError>)
        ensures
            theme_lookup(self.themes@, path@) is Some <==> r is Ok,
            r matches Ok(t) ==> theme_lookup(self.themes@, path@) == Some(t@),
            r matches Err(e) ==> e@ == path@,
    {
        let mut i: usize = 0;
        proof {
            assert(self.themes@.skip(0) =~= self.themes@);
        }
        while i < self.themes.len()
            invariant
                i <= self.themes@.len(),
                theme_lookup(self.themes@.skip(i as int), path@) == theme_lookup(
                    self.themes@,
                    path@,
                ),
            decreases self.themes@.len() - i,
        {
            proof {
                assert(self.themes@.skip(i as int)[0] == self.themes@[i as int]);
                assert(self.themes@.skip(i as int).skip(1) =~= self.themes@.skip(i + 1));
            }
            if str_eq(self.themes[i].path.as_str(), path) {
                return Ok(self.themes[i].theme.clone());
            }
            i = i + 1;
        }
        Err(LoadThemeError { path: String::from_str(path) })
    }
}

} // verus!
