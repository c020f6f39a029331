//! The settings of the program.

use vstd::prelude::*;

verus! {

/// The settings of the program.
#[derive(Debug)]
pub struct Config {
    /// The key of the photo service; empty to go through the public proxy.
    pub api_key: String,
    /// The size of the caption's font, in pixels.
    pub font_size: u32,
    /// How many photos one search asks for.
    pub images_per_download: u32,
    /// Where the caption stands, or `none`.
    pub label_position: String,
    /// The folder of the local pictures.
    pub pictures_folder: String,
    /// Comma-separated search terms; empty or `random` for any subject.
    pub search_terms: String,
    pub use_unsplash: bool,
}

impl Config {
    /// The default settings, with the local pictures in `pictures_folder`:
    /// no key, a 28 pixel font, 10 photos per search, the caption at the
    /// top right, no search terms, and the photo service in use.
    pub fn with_pictures_folder(pictures_folder: String) -> (r: Config)
        ensures
            r.api_key@ == Seq::<char>::empty(),
            r.font_size == 28,
            r.images_per_download == 10,
            r.label_position@ == "top_right"@,
            r.pictures_folder@ == pictures_folder@,
            r.search_terms@ == Seq::<char>::empty(),
            r.use_unsplash,
    {
        Config {
            api_key: String::new(),
            font_size: 28,
            images_per_download: 10,
            label_position: String::from_str("top_right"),
            pictures_folder,
            search_terms: String::new(),
            use_unsplash: true,
        }
    }
}

} // verus!
