//! What plugins are and what they may do: metadata, permissions, errors, and
//! the interfaces that plugins of each kind implement.

use crate::image_buffer::{ImageBuffer, ImageError};
use vstd::prelude::*;

verus! {

/// A capability that a plugin must be granted before using it.
#[derive(Debug, Clone, Copy, PartialEq, Eq, Hash, Structural)]
pub enum Permission {
    NetworkAccess,
    FileSystemRead,
    FileSystemWrite,
    PaymentProcessing,
    UiOverlay,
}

/// The kind of a plugin.
#[derive(Debug, Clone, Copy, PartialEq, Eq, Hash, Structural)]
pub enum PluginType {
    ImageFilter,
    ArchiveFormat,
    ContentSource,
    UiOverlay,
    Payment,
    Event,
}

/// Identity and requested permissions of a plugin.
#[derive(Debug, Clone)]
pub struct PluginMetadata {
    pub id: String,
    pub name: String,
    pub version: String,
    pub author: String,
    pub description: String,
    pub plugin_type: PluginType,
    pub permissions: Vec<Permission>,
}

/// Errors reported by plugins and by the plugin manager.
#[derive(Debug)]
pub enum PluginError {
    /// A plugin uses a permission that it was not granted.
    PermissionDenied { plugin: String, permission: Permission },
    /// A plugin failed while working.
    RuntimeError(String),
}

/// A title found by a content source.
#[derive(Debug, Clone)]
pub struct SearchResult {
    pub id: String,
    pub title: String,
    pub cover_url: Option<String>,
    pub author: Option<String>,
}

/// The address of a page image, with the request headers it needs.
#[derive(Debug, Clone)]
pub struct PageUrl {
    pub url: String,
    pub headers: Vec<(String, String)>,
}

/// What every plugin offers.
pub trait Plugin {
    /// The plugin's metadata.
    fn metadata(&self) -> &PluginMetadata;

    /// Called when the plugin is loaded; by default it changes nothing and
    /// succeeds.
    fn on_load(&mut self) -> (r: Result<(), PluginError>)
        default_ensures
            r == Ok::<(), PluginError>(()),
            &*final(self) == &*old(self),
    {
        Ok(())
    }

    /// Called when the plugin is unloaded; by default it changes nothing and
    /// succeeds.
    fn on_unload(&mut self) -> (r: Result<(), PluginError>)
        default_ensures
            r == Ok::<(), PluginError>(()),
            &*final(self) == &*old(self),
    {
        Ok(())
    }
}

/// A plugin that filters images.
pub trait ImageFilterPlugin: Plugin {
    /// The filter's name.
    fn filter_name(&self) -> &str;

    /// Applies the filter.
    fn apply(&self, image: &ImageBuffer) -> Result<ImageBuffer, ImageError>;
}

/// A plugin that reads another archive format.
pub trait ArchiveFormatPlugin: Plugin {
    /// File extensions of the format, without the dot.
    fn supported_extensions(&self) -> Vec<String>;

    /// Whether the file at `path` is of this format.
    fn can_open(&self, path: &str) -> bool;

    /// Number of pages in the archive at `path`.
    fn entry_count(&self, path: &str) -> Result<usize, PluginError>;

    /// The bytes of page `index` of the archive at `path`.
    fn read_entry(&self, path: &str, index: usize) -> Result<Vec<u8>, PluginError>;
}

/// A plugin that finds manga online and downloads their pages.
pub trait ContentSourcePlugin: Plugin {
    /// The record of a chapter that the source reports.
    type Chapter;

    /// The source's name.
    fn source_name(&self) -> &str;

    /// Titles matching a query.
    fn search(&self, query: &str) -> Result<Vec<SearchResult>, PluginError>;

    /// The chapters of a title.
    fn get_chapters(&self, manga_id: &str) -> Result<Vec<Self::Chapter>, PluginError>;

    /// The page images of a chapter.
    fn get_pages(&self, chapter_id: &str) -> Result<Vec<PageUrl>, PluginError>;

    /// The bytes of one page image.
    fn download_page(&self, url: &PageUrl) -> Result<Vec<u8>, PluginError>;
}

/// A plugin that shows something over the viewer (a banner, a notice). It
/// never covers the page being read, and the user can always dismiss it.
pub trait UiOverlayPlugin: Plugin {
    /// Where and how large the overlay is drawn.
    type Placement;

    /// Where the overlay is drawn.
    fn placement(&self) -> Self::Placement;

    /// Whether the user can dismiss the overlay.
    fn is_closeable(&self) -> (r: bool)
        default_ensures
            r,
    {
        true
    }

    /// The text the overlay shows.
    fn render_content(&self) -> String;
}

/// A plugin that takes payments.
pub trait PaymentPlugin: Plugin {
    /// Whether the user has an active subscription.
    fn check_subscription(&self) -> Result<bool, PluginError>;

    /// The address of a checkout page for a payment.
    fn get_payment_url(&self, amount_cents: u64, description: &str) -> Result<String, PluginError>;
}

/// A plugin that receives reading events, when the user opts in.
pub trait EventPlugin: Plugin {
    /// A page was viewed.
    fn on_page_view(&self, page: usize, total: usize);

    /// An archive was opened.
    fn on_archive_open(&self, path: &str);
}

} // verus!
