//! Core logic of a manga and comic book viewer: archive listing and
//! natural ordering, reading state (bookmarks, history, playlists, table of
//! contents), page navigation, splitting and prefetching, the viewer's
//! decisions on key presses and clicks, image buffers and exact pixel
//! filters, configuration import, input bindings, plugin bookkeeping, the
//! content-source downloader and sample pages for tests.

pub mod archive;
pub mod archive_plugins;
pub mod bookmarks;
pub mod cache;
pub mod clock;
pub mod codec;
pub mod config;
pub mod downloader;
pub mod downloads;
pub mod folder;
pub mod filters;
pub mod history;
pub mod i18n;
pub mod image_buffer;
pub mod ini;
pub mod input;
pub mod mouse;
pub mod natural_numbers;
pub mod natural_sort;
pub mod navigation;
pub mod payment;
pub mod playlist;
pub mod plugin_api;
pub mod plugin_manager;
pub mod reader;
pub mod recency;
pub mod remap;
pub mod render;
pub mod resize;
pub mod seqs;
pub mod tar_reader;
pub mod testdata;
pub mod text;
pub mod toc;
pub mod viewer;
pub mod vk;
pub mod zip_reader;

