//! Externally owned configuration: where media is stored, how large an
//! upload may be, and which MIME types the service accepts.

use vstd::prelude::*;

verus! {

pub struct Config {
    pub media_path: String,
    pub max_file_size: u64,
    pub allowed_mime_types: Vec<String>,
}

impl Default for Config {
    /// The stock configuration: media under the relative `media` directory,
    /// a 100 MiB size cap, and the service's allowed MIME set.
    fn default() -> (r: Self)
        ensures
            r.media_path@ == "media"@,
            r.max_file_size == 104857600,
            r.allowed_mime_types@.len() == 8,
            r.allowed_mime_types@[0]@ == "audio/*"@,
            r.allowed_mime_types@[1]@ == "video/*"@,
            r.allowed_mime_types@[2]@ == "image/*"@,
            r.allowed_mime_types@[3]@ == "application/octet-stream"@,
            r.allowed_mime_types@[4]@ == "application/json"@,
            r.allowed_mime_types@[5]@ == "text/xml"@,
            r.allowed_mime_types@[6]@ == "application/rss+xml"@,
            r.allowed_mime_types@[7]@ == "application/xml"@,
    {
        let mut allowed: Vec<String> = Vec::new();
        allowed.push("audio/*".to_owned());
        allowed.push("video/*".to_owned());
        allowed.push("image/*".to_owned());
        allowed.push("application/octet-stream".to_owned());
        allowed.push("application/json".to_owned());
        allowed.push("text/xml".to_owned());
        allowed.push("application/rss+xml".to_owned());
        allowed.push("application/xml".to_owned());
        Config {
            media_path: "media".to_owned(),
            max_file_size: 100 * 1024 * 1024,
            allowed_mime_types: allowed,
        }
    }
}

} // verus!
