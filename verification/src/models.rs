use vstd::prelude::*;

verus! {

/// Query parameters accepted by the extraction and image-proxy endpoints.
pub struct ExtractQuery {
    pub url: String,
}

/// The kind of attribute a tag's key was read from: `Property` for a
/// `property="..."` attribute, `Name` for `name`, `itemprop` or `rel`.
#[derive(Debug)]
pub enum TagType {
    Name(String),
    Property(String),
}

/// Ghost mirror of `TagType`, over character sequences.
pub enum TagTypeView {
    Name(Seq<char>),
    Property(Seq<char>),
}

impl View for TagType {
    type V = TagTypeView;

    open spec fn view(&self) -> TagTypeView {
        match self {
            TagType::Name(s) => TagTypeView::Name(s@),
            TagType::Property(s) => TagTypeView::Property(s@),
        }
    }
}

/// One parsed tag: its key (with kind), its content value, and the raw
/// candidate fragment it was parsed from.
#[derive(Debug)]
pub struct MetaTag {
    pub tag_type: TagType,
    pub content: String,
    pub raw: String,
}

#[verifier::ext_equal]
pub struct MetaTagView {
    pub tag_type: TagTypeView,
    pub content: Seq<char>,
    pub raw: Seq<char>,
}

impl View for MetaTag {
    type V = MetaTagView;

    open spec fn view(&self) -> MetaTagView {
        MetaTagView { tag_type: self.tag_type@, content: self.content@, raw: self.raw@ }
    }
}

impl DeepView for MetaTag {
    type V = MetaTagView;

    open spec fn deep_view(&self) -> MetaTagView {
        self@
    }
}

/// The canonical preview record folded out of the parsed tags.
#[derive(Debug)]
pub struct OpenGraphResponse {
    pub title: String,
    pub og_type: Option<String>,
    pub url: String,
    pub image: Option<String>,
    pub audio: Option<String>,
    pub description: Option<String>,
    pub site_name: Option<String>,
    pub video: Option<String>,
}

#[verifier::ext_equal]
pub struct OpenGraphView {
    pub title: Seq<char>,
    pub og_type: Option<Seq<char>>,
    pub url: Seq<char>,
    pub image: Option<Seq<char>>,
    pub audio: Option<Seq<char>>,
    pub description: Option<Seq<char>>,
    pub site_name: Option<Seq<char>>,
    pub video: Option<Seq<char>>,
}

pub open spec fn view_opt(o: Option<String>) -> Option<Seq<char>> {
    match o {
        Some(s) => Some(s@),
        None => None,
    }
}

impl View for OpenGraphResponse {
    type V = OpenGraphView;

    open spec fn view(&self) -> OpenGraphView {
        OpenGraphView {
            title: self.title@,
            og_type: view_opt(self.og_type),
            url: self.url@,
            image: view_opt(self.image),
            audio: view_opt(self.audio),
            description: view_opt(self.description),
            site_name: view_opt(self.site_name),
            video: view_opt(self.video),
        }
    }
}

/// The record with no tags folded in yet: empty title and url, nothing else.
pub open spec fn empty_og_view() -> OpenGraphView {
    OpenGraphView {
        title: Seq::<char>::empty(),
        og_type: None,
        url: Seq::<char>::empty(),
        image: None,
        audio: None,
        description: None,
        site_name: None,
        video: None,
    }
}

impl Default for OpenGraphResponse {
    fn default() -> (r: Self)
        ensures
            r@ == empty_og_view(),
    {
        let r = OpenGraphResponse {
            title: String::new(),
            og_type: None,
            url: String::new(),
            image: None,
            audio: None,
            description: None,
            site_name: None,
            video: None,
        };
        proof {
            assert(r@ =~= empty_og_view());
        }
        r
    }
}

/// Wrapper enum for the non-legacy extraction response body.
#[derive(Debug)]
pub enum MetadataResponseType {
    OpenGraph(OpenGraphResponse),
}

pub enum MetadataResponseTypeView {
    OpenGraph(OpenGraphView),
}

impl View for MetadataResponseType {
    type V = MetadataResponseTypeView;

    open spec fn view(&self) -> MetadataResponseTypeView {
        match self {
            MetadataResponseType::OpenGraph(r) => MetadataResponseTypeView::OpenGraph(r@),
        }
    }
}

/// The non-legacy extraction response body.
#[derive(Debug)]
pub struct MetadataResponse {
    pub metadata: MetadataResponseType,
}

#[verifier::ext_equal]
pub struct MetadataResponseView {
    pub metadata: MetadataResponseTypeView,
}

impl View for MetadataResponse {
    type V = MetadataResponseView;

    open spec fn view(&self) -> MetadataResponseView {
        MetadataResponseView { metadata: self.metadata@ }
    }
}

/// The legacy-compatible response shape: either the preview's fields with an
/// empty error string, or the fixed error shape with every other field empty.
#[derive(Debug)]
pub struct CardyBResponse {
    pub error: String,
    pub likely_type: String,
    pub url: String,
    pub title: String,
    pub description: String,
    pub image: String,
}

#[verifier::ext_equal]
pub struct CardyBView {
    pub error: Seq<char>,
    pub likely_type: Seq<char>,
    pub url: Seq<char>,
    pub title: Seq<char>,
    pub description: Seq<char>,
    pub image: Seq<char>,
}

impl View for CardyBResponse {
    type V = CardyBView;

    open spec fn view(&self) -> CardyBView {
        CardyBView {
            error: self.error@,
            likely_type: self.likely_type@,
            url: self.url@,
            title: self.title@,
            description: self.description@,
            image: self.image@,
        }
    }
}

/// The fixed legacy error shape: a human-readable message, all else empty.
pub open spec fn legacy_error_view() -> CardyBView {
    CardyBView {
        error: "Unable to generate link preview"@,
        likely_type: Seq::<char>::empty(),
        url: Seq::<char>::empty(),
        title: Seq::<char>::empty(),
        description: Seq::<char>::empty(),
        image: Seq::<char>::empty(),
    }
}

/// What the legacy conversion yields: the error shape when the canonical url
/// or the title is missing, otherwise the preview's fields with defaults
/// filled in (`website` for the type, empty strings elsewhere).
pub open spec fn cardyb_of(og: OpenGraphView) -> CardyBView {
    if og.url.len() == 0 || og.title.len() == 0 {
        legacy_error_view()
    } else {
        CardyBView {
            error: Seq::<char>::empty(),
            likely_type: match og.og_type {
                Some(t) => t,
                None => "website"@,
            },
            url: og.url,
            title: og.title,
            description: match og.description {
                Some(d) => d,
                None => Seq::<char>::empty(),
            },
            image: match og.image {
                Some(i) => i,
                None => Seq::<char>::empty(),
            },
        }
    }
}

impl CardyBResponse {
    /// Legacy-compatibility conversion: a preview without both a canonical
    /// url and a title degrades to the fixed error shape.
    pub fn from(og: OpenGraphResponse) -> (r: CardyBResponse)
        ensures
            r@ == cardyb_of(og@),
    {
        if og.url.as_str().is_empty() || og.title.as_str().is_empty() {
            let r = CardyBResponse {
                error: "Unable to generate link preview".to_owned(),
                likely_type: String::new(),
                url: String::new(),
                title: String::new(),
                description: String::new(),
                image: String::new(),
            };
            proof {
                assert(r@ =~= cardyb_of(og@));
            }
            r
        } else {
            let likely_type = match og.og_type {
                Some(t) => t,
                None => "website".to_owned(),
            };
            let description = match og.description {
                Some(d) => d,
                None => String::new(),
            };
            let image = match og.image {
                Some(i) => i,
                None => String::new(),
            };
            let r = CardyBResponse {
                error: String::new(),
                likely_type,
                url: og.url,
                title: og.title,
                description,
                image,
            };
            proof {
                assert(r@ =~= cardyb_of(og@));
            }
            r
        }
    }
}

/// A preview whose canonical url is empty always converts to the fixed
/// legacy error shape, whatever its other fields hold.
pub proof fn lemma_empty_url_is_legacy_error(og: OpenGraphView)
    requires
        og.url.len() == 0,
    ensures
        cardyb_of(og) == legacy_error_view(),
{
}

} // verus!
