use vstd::prelude::*;

verus! {

/// The headers the image proxy answers with: the fixed target format's
/// content type, and a year-long cache-control directive.
pub fn create_image_headers() -> (r: Vec<(String, String)>)
    ensures
        r.deep_view() == seq![
            ("content-type"@, "image/webp"@),
            ("cache-control"@, "public, max-age=31536000"@),
        ],
{
    let mut r: Vec<(String, String)> = Vec::new();
    r.push(("content-type".to_owned(), "image/webp".to_owned()));
    r.push(("cache-control".to_owned(), "public, max-age=31536000".to_owned()));
    proof {
        assert(r.deep_view() =~= seq![
            ("content-type"@, "image/webp"@),
            ("cache-control"@, "public, max-age=31536000"@),
        ]);
    }
    r
}

} // verus!
