//! Requests to the OpenRouter video API and the handle of a submitted job.
use vstd::prelude::*;

verus! {

/// A submitted video generation job.
#[derive(Debug, PartialEq, Eq)]
pub struct Job {
    pub id: String,
    pub polling_url: String,
}

/// A video generation request.
#[derive(Debug, PartialEq, Eq)]
pub struct VideoRequest {
    pub model: String,
    pub prompt: String,
    pub duration: i32,
    pub resolution: Option<Resolution>,
    pub aspect_ratio: Option<AspectRatio>,
    pub size: Option<String>,
    pub input_references: Option<Vec<InputReference>>,
}

/// The URL of a reference image.
#[derive(Debug, PartialEq, Eq)]
pub struct Reference {
    pub url: String,
}

/// A reference image that guides the generation.
#[derive(Debug, PartialEq, Eq)]
pub struct InputReference {
    pub _type: String,
    pub image_url: Reference,
}

/// The kind tag of an image reference.
pub open spec fn image_url_tag() -> Seq<char> {
    seq!['i', 'm', 'a', 'g', 'e', '_', 'u', 'r', 'l']
}

impl InputReference {
    /// An image reference to `url`, tagged `image_url`.
    pub fn from_url(url: String) -> (r: Self)
        ensures
            r._type@ == image_url_tag(),
            r.image_url.url == url,
    {
        let tag = String::from_str("image_url");
        proof {
            reveal_strlit("image_url");
            assert("image_url"@ =~= image_url_tag());
        }
        Self { _type: tag, image_url: Reference { url } }
    }
}

/// The resolution of the generated video.
#[derive(Debug, Clone, Copy, PartialEq, Eq)]
pub enum Resolution {
    FHD,
    HD,
    SD,
}

/// The aspect ratio of the generated video.
#[derive(Debug, Clone, Copy, PartialEq, Eq)]
pub enum AspectRatio {
    Square,
    Portrait,
    Landscape,
}

} // verus!
