//! The file types of images.
use vstd::prelude::*;

verus! {

#[derive(Clone, Copy, Debug, PartialEq, Eq, Structural)]
pub enum ImageFileType {
    Jpeg,
    Png,
}

/// The type of an image file; every image is treated as a JPEG for now.
pub fn get_image_type(_image_filename: &str) -> (t: ImageFileType)
    ensures
        t == ImageFileType::Jpeg,
{
    ImageFileType::Jpeg
}

} // verus!
