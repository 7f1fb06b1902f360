use crate::error::AppError;
use crate::models::{
    MetaTag, MetaTagView, MetadataResponse, MetadataResponseType, MetadataResponseTypeView,
    OpenGraphResponse, OpenGraphView, TagType, TagTypeView, empty_og_view,
};
use crate::text::{
    contains_str, is_ws, is_ws_char, match_at, match_at_str, spec_find, spec_join, spec_split,
    split_str, str_equal,
};
use vstd::prelude::*;

verus! {

// ---------------------------------------------------------------------------
// URL shape check
// ---------------------------------------------------------------------------
/// A character the permissive check accepts in the domain part.
pub open spec fn domain_char(c: char) -> bool {
    ('a' as u32 <= c as u32 && c as u32 <= 'z' as u32) || ('A' as u32 <= c as u32 && c as u32
        <= 'Z' as u32) || ('0' as u32 <= c as u32 && c as u32 <= '9' as u32) || c == '-' || c == '@'
        || c == ':' || c == '%' || c == '.' || c == '_' || c == '+' || c == '~' || c == '#' || c
        == '='
}

pub open spec fn lower_alpha(c: char) -> bool {
    'a' as u32 <= c as u32 && c as u32 <= 'z' as u32
}

/// A word character, for the boundary after a plausible TLD. The class is
/// deliberately the ASCII one: a full Unicode word class is an outside
/// engine's table, and a TLD is ASCII, so only a non-ASCII letter or digit
/// directly after the TLD is judged differently.
pub open spec fn word_char(c: char) -> bool {
    ('a' as u32 <= c as u32 && c as u32 <= 'z' as u32) || ('A' as u32 <= c as u32 && c as u32
        <= 'Z' as u32) || ('0' as u32 <= c as u32 && c as u32 <= '9' as u32) || c == '_'
}

/// A plausible TLD of length `m` right after the dot at `dot`: lowercase
/// letters followed by a word boundary.
pub open spec fn tld_m(s: Seq<char>, dot: int, m: int) -> bool {
    &&& dot + m + 1 <= s.len()
    &&& forall|q: int| dot + 1 <= q <= dot + m ==> lower_alpha(#[trigger] s[q])
    &&& (dot + m + 1 == s.len() || !word_char(s[dot + m + 1]))
}

pub open spec fn tld_at(s: Seq<char>, dot: int) -> bool {
    exists|m: int| 2 <= m <= 6 && tld_m(s, dot, m)
}

/// The dot at `dot` separates at least two domain characters from a
/// plausible TLD.
pub open spec fn dot_ok(s: Seq<char>, dot: int) -> bool {
    &&& s[dot] == '.'
    &&& domain_char(s[dot - 1])
    &&& domain_char(s[dot - 2])
    &&& tld_at(s, dot)
}

/// The permissive URL shape check: somewhere in `s`, a domain run of at
/// least two characters, a dot, and a plausible TLD of two to six lowercase
/// letters ending at a word boundary. Scheme and `www.` prefixes are
/// optional and need no separate check.
pub open spec fn url_shape_ok(s: Seq<char>) -> bool {
    exists|dot: int| 2 <= dot < s.len() && dot_ok(s, dot)
}

fn domain_char_exec(c: char) -> (r: bool)
    ensures
        r == domain_char(c),
{
    let u = c as u32;
    (97 <= u && u <= 122) || (65 <= u && u <= 90) || (48 <= u && u <= 57) || c == '-' || c == '@'
        || c == ':' || c == '%' || c == '.' || c == '_' || c == '+' || c == '~' || c == '#' || c
        == '='
}

fn lower_alpha_exec(c: char) -> (r: bool)
    ensures
        r == lower_alpha(c),
{
    let u = c as u32;
    97 <= u && u <= 122
}

fn word_char_exec(c: char) -> (r: bool)
    ensures
        r == word_char(c),
{
    let u = c as u32;
    (97 <= u && u <= 122) || (65 <= u && u <= 90) || (48 <= u && u <= 57) || c == '_'
}

fn check_tld_m(s: &str, dot: usize, m: usize) -> (r: bool)
    requires
        dot < s@.len(),
        1 <= m <= 6,
    ensures
        r == tld_m(s@, dot as int, m as int),
{
    let sl = s.unicode_len();
    if m + 1 > sl - dot {
        return false;
    }
    let mut q: usize = 1;
    while q <= m
        invariant
            1 <= q <= m + 1,
            m <= 6,
            dot + m + 1 <= sl,
            sl == s@.len(),
            forall|p: int| dot + 1 <= p < dot + q ==> lower_alpha(#[trigger] s@[p]),
        decreases m + 1 - q,
    {
        if !lower_alpha_exec(s.get_char(dot + q)) {
            return false;
        }
        q += 1;
    }
    if dot + m + 1 == sl {
        true
    } else {
        !word_char_exec(s.get_char(dot + m + 1))
    }
}

fn check_dot(s: &str, dot: usize) -> (r: bool)
    requires
        2 <= dot < s@.len(),
    ensures
        r == dot_ok(s@, dot as int),
{
    if s.get_char(dot) != '.' {
        return false;
    }
    if !domain_char_exec(s.get_char(dot - 1)) || !domain_char_exec(s.get_char(dot - 2)) {
        return false;
    }
    let mut m: usize = 2;
    while m <= 6
        invariant
            2 <= m <= 7,
            2 <= dot < s@.len(),
            s@[dot as int] == '.',
            domain_char(s@[dot - 1]),
            domain_char(s@[dot - 2]),
            forall|k: int| 2 <= k < m ==> !tld_m(s@, dot as int, k),
        decreases 7 - m,
    {
        if check_tld_m(s, dot, m) {
            assert(tld_at(s@, dot as int));
            return true;
        }
        m += 1;
    }
    assert(!tld_at(s@, dot as int));
    false
}

/// Whether `url` passes the permissive shape check that guards extraction.
pub fn is_valid_url(url: &str) -> (r: bool)
    ensures
        r == url_shape_ok(url@),
{
    let sl = url.unicode_len();
    if sl < 3 {
        return false;
    }
    let mut dot: usize = 2;
    while dot < sl
        invariant
            2 <= dot,
            sl == url@.len(),
            forall|d: int| 2 <= d < dot ==> !dot_ok(url@, d),
        decreases sl - dot,
    {
        if check_dot(url, dot) {
            assert(url_shape_ok(url@));
            return true;
        }
        dot += 1;
    }
    false
}

// ---------------------------------------------------------------------------
// Head extraction
// ---------------------------------------------------------------------------
/// The head region the heuristic takes from a fetched document: the second
/// piece after splitting on `head>`, with everything from its final `</`
/// marker on discarded. A document without a second piece has no head and is
/// treated as a fetch failure by the caller.
pub open spec fn head_of(doc: Seq<char>) -> Option<Seq<char>> {
    let parts = spec_split(doc, "head>"@);
    if parts.len() < 2 {
        None
    } else {
        let mid = spec_split(parts[1], "</"@);
        Some(spec_join(mid.drop_last(), "</"@))
    }
}

/// Applies the head-taking heuristic to a document.
pub fn extract_head(document: &str) -> (r: Option<String>)
    ensures
        r matches Some(h) ==> head_of(document@) == Some(h@),
        r is None ==> head_of(document@) is None,
{
    proof {
        reveal_strlit("head>");
        reveal_strlit("</");
    }
    let parts = split_str(document, "head>");
    if parts.len() < 2 {
        return None;
    }
    let second = &parts[1];
    assert(second@ == spec_split(document@, "head>"@)[1]);
    let mut mid = split_str(second.as_str(), "</");
    let ghost mid0 = mid.deep_view();
    assert(mid0.len() >= 1);
    mid.pop();
    proof {
        assert(mid.deep_view() =~= mid0.drop_last());
    }
    let joined = crate::text::join_str(&mid, "</");
    Some(joined)
}

// ---------------------------------------------------------------------------
// Tag tokenizer
// ---------------------------------------------------------------------------
/// Whether an accumulated segment is kept as a candidate tag: it mentions
/// `meta` or `link` anywhere, attribute values included.
pub open spec fn keeps_segment(cur: Seq<char>) -> bool {
    spec_find(cur, "meta"@) >= 0 || spec_find(cur, "link"@) >= 0
}

/// The candidate tags of `s` with `cur` already accumulated: characters
/// gather between `<` delimiters, and each `<` emits the finished segment,
/// re-prefixed with `<`, when it is kept. Whatever is still accumulated when
/// the input ends is discarded.
pub open spec fn tokenize_rec(s: Seq<char>, cur: Seq<char>) -> Seq<Seq<char>>
    decreases s.len(),
{
    if s.len() == 0 {
        Seq::<Seq<char>>::empty()
    } else if s[0] == '<' {
        if keeps_segment(cur) {
            seq![seq!['<'] + cur] + tokenize_rec(s.skip(1), Seq::<char>::empty())
        } else {
            tokenize_rec(s.skip(1), Seq::<char>::empty())
        }
    } else {
        tokenize_rec(s.skip(1), cur.push(s[0]))
    }
}

/// The ordered candidate tags of a head region.
pub open spec fn tokenize(s: Seq<char>) -> Seq<Seq<char>> {
    tokenize_rec(s, Seq::<char>::empty())
}

// ---------------------------------------------------------------------------
// Tag parser
// ---------------------------------------------------------------------------
/// The first position at or after `i` holding a non-whitespace character,
/// or the length of `t`.
pub open spec fn skip_ws_from(t: Seq<char>, i: int) -> int
    decreases t.len() - i,
{
    if i < 0 || i >= t.len() {
        i
    } else if is_ws(t[i]) {
        skip_ws_from(t, i + 1)
    } else {
        i
    }
}

/// The first position at or after `i` holding `c`, or -1.
pub open spec fn find_char_from(t: Seq<char>, i: int, c: char) -> int
    decreases t.len() - i,
{
    if i < 0 || i >= t.len() {
        -1
    } else if t[i] == c {
        i
    } else {
        find_char_from(t, i + 1, c)
    }
}

/// Which leading attribute keyword stands at `i`, if any. No keyword is a
/// prefix of another, so at most one can match.
pub open spec fn leading_attr(t: Seq<char>, i: int) -> Option<Seq<char>> {
    if match_at(t, i, "name"@) {
        Some("name"@)
    } else if match_at(t, i, "property"@) {
        Some("property"@)
    } else if match_at(t, i, "itemprop"@) {
        Some("itemprop"@)
    } else if match_at(t, i, "rel"@) {
        Some("rel"@)
    } else {
        None
    }
}

/// Which value attribute keyword stands at `i`, if any.
pub open spec fn value_attr(t: Seq<char>, i: int) -> Option<Seq<char>> {
    if match_at(t, i, "content"@) {
        Some("content"@)
    } else if match_at(t, i, "href"@) {
        Some("href"@)
    } else {
        None
    }
}

/// The single pattern a candidate tag must take: `<meta` or `<link`, then
/// whitespace, one leading attribute (`name`, `property`, `itemprop` or
/// `rel`) with a double-quoted value captured as the key, then whitespace
/// and one value attribute (`content` or `href`) with a double-quoted value
/// captured as the content. A `link` element's key gets the `link:` prefix;
/// the kind is `Property` exactly when the leading attribute is `property`.
/// Anything that does not fit yields nothing.
pub open spec fn parse_tag(t: Seq<char>) -> Option<MetaTagView> {
    let is_link = match_at(t, 0, "<link"@);
    if !match_at(t, 0, "<meta"@) && !is_link {
        None
    } else if t.len() <= 5 || !is_ws(t[5]) {
        None
    } else {
        let a1 = skip_ws_from(t, 5);
        match leading_attr(t, a1) {
            None => None,
            Some(kw1) => {
                if !match_at(t, a1 + kw1.len(), "=\""@) {
                    None
                } else {
                    let v1 = a1 + kw1.len() + 2;
                    let e1 = find_char_from(t, v1, '"');
                    if e1 < 0 {
                        None
                    } else {
                        let key0 = t.subrange(v1, e1);
                        if e1 + 1 >= t.len() || !is_ws(t[e1 + 1]) {
                            None
                        } else {
                            let a2 = skip_ws_from(t, e1 + 1);
                            match value_attr(t, a2) {
                                None => None,
                                Some(kw2) => {
                                    if !match_at(t, a2 + kw2.len(), "=\""@) {
                                        None
                                    } else {
                                        let v2 = a2 + kw2.len() + 2;
                                        let e2 = find_char_from(t, v2, '"');
                                        if e2 < 0 {
                                            None
                                        } else {
                                            let content = t.subrange(v2, e2);
                                            let key = if is_link {
                                                "link:"@ + key0
                                            } else {
                                                key0
                                            };
                                            let kind = if kw1 == "property"@ {
                                                TagTypeView::Property(key)
                                            } else {
                                                TagTypeView::Name(key)
                                            };
                                            Some(MetaTagView { tag_type: kind, content, raw: t })
                                        }
                                    }
                                },
                            }
                        }
                    }
                }
            },
        }
    }
}

/// Skips whitespace from `i` on.
pub fn skip_ws_str(t: &str, i: usize) -> (r: usize)
    requires
        i as int <= t@.len(),
    ensures
        r as int == skip_ws_from(t@, i as int),
        i <= r <= t@.len(),
{
    let tl = t.unicode_len();
    let mut r: usize = i;
    while r < tl && is_ws_char(t.get_char(r))
        invariant
            i <= r <= tl,
            tl == t@.len(),
            skip_ws_from(t@, i as int) == skip_ws_from(t@, r as int),
        decreases tl - r,
    {
        r += 1;
    }
    r
}

/// The first position at or after `i` holding `c`, if any.
pub fn find_char_str(t: &str, i: usize, c: char) -> (r: Option<usize>)
    requires
        i as int <= t@.len(),
    ensures
        r matches Some(j) ==> find_char_from(t@, i as int, c) == j as int && i <= j < t@.len()
            && t@[j as int] == c,
        r is None ==> find_char_from(t@, i as int, c) == -1,
{
    let tl = t.unicode_len();
    let mut k: usize = i;
    while k < tl
        invariant
            i <= k <= tl,
            tl == t@.len(),
            find_char_from(t@, i as int, c) == find_char_from(t@, k as int, c),
        decreases tl - k,
    {
        if t.get_char(k) == c {
            return Some(k);
        }
        k += 1;
    }
    None
}

/// Parses one candidate tag against the single tag pattern.
pub fn parse_candidate(t: &str) -> (r: Option<MetaTag>)
    ensures
        r matches Some(m) ==> parse_tag(t@) == Some(m@),
        r is None ==> parse_tag(t@) is None,
{
    let tl = t.unicode_len();
    let is_link = match_at_str(t, 0, "<link");
    let is_meta = match_at_str(t, 0, "<meta");
    if !is_meta && !is_link {
        return None;
    }
    if tl <= 5 {
        return None;
    }
    if !is_ws_char(t.get_char(5)) {
        return None;
    }
    let a1 = skip_ws_str(t, 5);
    let m_name = match_at_str(t, a1, "name");
    let m_prop = match_at_str(t, a1, "property");
    let m_item = match_at_str(t, a1, "itemprop");
    let m_rel = match_at_str(t, a1, "rel");
    proof {
        reveal_strlit("name");
        reveal_strlit("property");
        reveal_strlit("itemprop");
        reveal_strlit("rel");
        reveal_strlit("content");
        reveal_strlit("href");
        reveal_strlit("=\"");
        reveal_strlit("link:");
    }
    let mut kw_len: usize = 0;
    let mut is_property = false;
    if m_name {
        kw_len = 4;
    } else if m_prop {
        kw_len = 8;
        is_property = true;
    } else if m_item {
        kw_len = 8;
    } else if m_rel {
        kw_len = 3;
    } else {
        return None;
    }
    let ghost kw1 = leading_attr(t@, a1 as int).unwrap();
    assert(kw_len as int == kw1.len());
    assert(is_property == (kw1 == "property"@));
    assert(a1 + kw_len <= tl);
    if !match_at_str(t, a1 + kw_len, "=\"") {
        return None;
    }
    let v1 = a1 + kw_len + 2;
    let e1 = match find_char_str(t, v1, '"') {
        Some(j) => j,
        None => {
            return None;
        },
    };
    let key0 = t.substring_char(v1, e1);
    let j2 = e1 + 1;
    if j2 >= tl {
        return None;
    }
    if !is_ws_char(t.get_char(j2)) {
        return None;
    }
    let a2 = skip_ws_str(t, j2);
    let m_content = match_at_str(t, a2, "content");
    let m_href = match_at_str(t, a2, "href");
    let mut kw2_len: usize = 0;
    if m_content {
        kw2_len = 7;
    } else if m_href {
        kw2_len = 4;
    } else {
        return None;
    }
    let ghost kw2 = value_attr(t@, a2 as int).unwrap();
    assert(kw2_len as int == kw2.len());
    assert(a2 + kw2_len <= tl);
    if !match_at_str(t, a2 + kw2_len, "=\"") {
        return None;
    }
    let v2 = a2 + kw2_len + 2;
    let e2 = match find_char_str(t, v2, '"') {
        Some(j) => j,
        None => {
            return None;
        },
    };
    let content = t.substring_char(v2, e2).to_owned();
    let key: String;
    if is_link {
        let mut k = "link:".to_owned();
        k.append(key0);
        key = k;
    } else {
        key = key0.to_owned();
    }
    let tag_type = if is_property {
        TagType::Property(key)
    } else {
        TagType::Name(key)
    };
    let m = MetaTag { tag_type, content, raw: t.to_owned() };
    proof {
        let spec_m = parse_tag(t@).unwrap();
        assert(m@ =~= spec_m);
    }
    Some(m)
}

/// Whether a candidate survives the prefilter: it mentions `name=`,
/// `property=` or `itemprop=` somewhere.
pub open spec fn prefilter(tag: Seq<char>) -> bool {
    spec_find(tag, "name="@) >= 0 || spec_find(tag, "property="@) >= 0 || spec_find(
        tag,
        "itemprop="@,
    ) >= 0
}

/// The tags parsed out of the candidates, in document order; candidates that
/// fail the prefilter or the pattern are silently dropped.
pub open spec fn parse_all(cands: Seq<Seq<char>>) -> Seq<MetaTagView>
    decreases cands.len(),
{
    if cands.len() == 0 {
        Seq::<MetaTagView>::empty()
    } else {
        let rest = parse_all(cands.skip(1));
        if prefilter(cands[0]) {
            match parse_tag(cands[0]) {
                Some(m) => seq![m] + rest,
                None => rest,
            }
        } else {
            rest
        }
    }
}

/// The tags of a head region: tokenize, prefilter, parse.
pub open spec fn tags_of(head: Seq<char>) -> Seq<MetaTagView> {
    parse_all(tokenize(head))
}

/// Extracts all tags matching the tag pattern from the passed-in head
/// region, in document order.
pub fn get_open_graph_tags(header: &str) -> (r: Vec<MetaTag>)
    ensures
        r.deep_view() == tags_of(header@),
{
    let hl = header.unicode_len();
    let mut cands: Vec<String> = Vec::new();
    let mut seg_start: usize = 0;
    let mut i: usize = 0;
    proof {
        assert(header@.skip(0) =~= header@);
        assert(header@.subrange(0, 0) =~= Seq::<char>::empty());
        assert(cands.deep_view() =~= Seq::<Seq<char>>::empty());
        assert(Seq::<Seq<char>>::empty() + tokenize(header@) =~= tokenize(header@));
    }
    while i < hl
        invariant
            0 <= seg_start <= i <= hl,
            hl == header@.len(),
            tokenize(header@) == cands.deep_view() + tokenize_rec(
                header@.skip(i as int),
                header@.subrange(seg_start as int, i as int),
            ),
        decreases hl - i,
    {
        let c = header.get_char(i);
        proof {
            assert(header@.skip(i as int)[0] == header@[i as int]);
            assert(header@.skip(i as int).skip(1) =~= header@.skip(i + 1));
        }
        if c == '<' {
            let segment = header.substring_char(seg_start, i);
            let keep = contains_str(segment, "meta") || contains_str(segment, "link");
            if keep {
                let mut cand = "<".to_owned();
                cand.append(segment);
                proof {
                    reveal_strlit("<");
                    assert("<"@ =~= seq!['<']);
                    assert(cand@ =~= seq!['<'] + header@.subrange(seg_start as int, i as int));
                }
                let ghost prev = cands.deep_view();
                cands.push(cand);
                proof {
                    assert(cands.deep_view() =~= prev.push(cand@));
                    assert(prev + (seq![cand@] + tokenize_rec(
                        header@.skip(i + 1),
                        Seq::<char>::empty(),
                    )) =~= cands.deep_view() + tokenize_rec(
                        header@.skip(i + 1),
                        Seq::<char>::empty(),
                    ));
                }
            }
            proof {
                assert(header@.subrange(i + 1, i + 1) =~= Seq::<char>::empty());
            }
            seg_start = i + 1;
        } else {
            proof {
                assert(header@.subrange(seg_start as int, i + 1) =~= header@.subrange(
                    seg_start as int,
                    i as int,
                ).push(header@[i as int]));
            }
        }
        i += 1;
    }
    proof {
        assert(header@.skip(hl as int).len() == 0);
        assert(tokenize(header@) =~= cands.deep_view());
    }
    let n = cands.len();
    let mut tags: Vec<MetaTag> = Vec::new();
    let mut k: usize = 0;
    proof {
        assert(cands.deep_view().skip(0) =~= cands.deep_view());
        assert(tags.deep_view() =~= Seq::<MetaTagView>::empty());
        assert(Seq::<MetaTagView>::empty() + parse_all(cands.deep_view()) =~= parse_all(
            cands.deep_view(),
        ));
    }
    while k < n
        invariant
            0 <= k <= n,
            n == cands@.len(),
            tokenize(header@) == cands.deep_view(),
            tags_of(header@) == tags.deep_view() + parse_all(cands.deep_view().skip(k as int)),
        decreases n - k,
    {
        proof {
            assert(cands.deep_view().skip(k as int)[0] == cands.deep_view()[k as int]);
            assert(cands.deep_view().skip(k as int).skip(1) =~= cands.deep_view().skip(k + 1));
        }
        let cand = &cands[k];
        let pf = contains_str(cand.as_str(), "name=") || contains_str(cand.as_str(), "property=")
            || contains_str(cand.as_str(), "itemprop=");
        if pf {
            match parse_candidate(cand.as_str()) {
                Some(m) => {
                    let ghost prev = tags.deep_view();
                    let ghost mv = m@;
                    tags.push(m);
                    proof {
                        assert(tags.deep_view() =~= prev.push(mv));
                        assert(prev + (seq![mv] + parse_all(cands.deep_view().skip(k + 1)))
                            =~= tags.deep_view() + parse_all(cands.deep_view().skip(k + 1)));
                    }
                },
                None => {},
            }
        }
        k += 1;
    }
    proof {
        assert(parse_all(cands.deep_view().skip(n as int)) =~= Seq::<MetaTagView>::empty());
        assert(tags_of(header@) =~= tags.deep_view());
    }
    tags
}

// ---------------------------------------------------------------------------
// Collator
// ---------------------------------------------------------------------------
/// What an urlencoded string holds. Relied on through `url_encode` below;
/// the encoding is a pure function of its input, so the name is sound.
pub uninterp spec fn url_encoded(s: Seq<char>) -> Seq<char>;

/// Relies on urlencoding::encode: percent-encodes every byte of the UTF-8
/// form outside ASCII alphanumerics and `-`, `_`, `.`, `~`. The result
/// depends on the input characters alone; it is named `url_encoded` here.
#[verifier::external_body]
fn url_encode(s: &str) -> (r: String)
    ensures
        r@ == url_encoded(s@),
{
    urlencoding::encode(s).into_owned()
}

/// A tag's bare key, whatever its kind.
pub open spec fn tag_key(tag: MetaTagView) -> Seq<char> {
    match tag.tag_type {
        TagTypeView::Name(n) => n,
        TagTypeView::Property(n) => n,
    }
}

/// One tag folded into the record: a recognized key overwrites its field,
/// an unrecognized key changes nothing. The dispatch applies uniformly
/// whatever the tag's kind.
pub open spec fn apply_tag(og: OpenGraphView, tag: MetaTagView) -> OpenGraphView {
    let name = tag_key(tag);
    if name == "og:title"@ || name == "twitter:title"@ {
        OpenGraphView { title: tag.content, ..og }
    } else if name == "og:type"@ {
        OpenGraphView { og_type: Some(tag.content), ..og }
    } else if name == "og:url"@ {
        OpenGraphView { url: tag.content, ..og }
    } else if name == "og:image"@ {
        OpenGraphView { image: Some(tag.content), ..og }
    } else if name == "og:audio"@ {
        OpenGraphView { audio: Some(tag.content), ..og }
    } else if name == "og:description"@ || name == "twitter:description"@ {
        OpenGraphView { description: Some(tag.content), ..og }
    } else if name == "og:site_name"@ {
        OpenGraphView { site_name: Some(tag.content), ..og }
    } else if name == "og:video"@ {
        OpenGraphView { video: Some(tag.content), ..og }
    } else {
        og
    }
}

/// The record folded out of the tags in order: a later tag with the same
/// key overrides an earlier one.
pub open spec fn fold_tags(tags: Seq<MetaTagView>) -> OpenGraphView
    decreases tags.len(),
{
    if tags.len() == 0 {
        empty_og_view()
    } else {
        apply_tag(fold_tags(tags.drop_last()), tags.last())
    }
}

/// A canonical url the YouTube override applies to.
pub open spec fn is_youtube_watch(url: Seq<char>) -> bool {
    match_at(url, 0, "https://youtube.com/watch"@) || match_at(
        url,
        0,
        "https://www.youtube.com/watch"@,
    ) || match_at(url, 0, "https://youtube.com/shorts"@) || match_at(
        url,
        0,
        "https://www.youtube.com/shorts"@,
    )
}

/// Whether a tag is a `Name`-kind tag whose key starts with the literal
/// `name`; the override scans the raw tag sequence for these, not any field
/// of the already-folded record.
pub open spec fn name_prefixed(t: MetaTagView) -> bool {
    match t.tag_type {
        TagTypeView::Name(n) => match_at(n, 0, "name"@),
        TagTypeView::Property(_) => false,
    }
}

/// The content of the last `name`-prefixed `Name`-kind tag, or empty.
pub open spec fn last_name_tag_content(tags: Seq<MetaTagView>) -> Seq<char>
    decreases tags.len(),
{
    if tags.len() == 0 {
        Seq::<char>::empty()
    } else if name_prefixed(tags.last()) {
        tags.last().content
    } else {
        last_name_tag_content(tags.drop_last())
    }
}

/// The description the YouTube override writes.
pub open spec fn youtube_description(url: Seq<char>, tags: Seq<MetaTagView>) -> Seq<char> {
    "Youtube "@ + (if spec_find(url, "/shorts"@) >= 0 {
        "short"@
    } else {
        "video"@
    }) + " by "@ + last_name_tag_content(tags)
}

/// The proxied form an image url is rewritten to.
pub open spec fn proxied_image(base_url: Seq<char>, image: Seq<char>) -> Seq<char> {
    base_url + "/v1/image?url="@ + url_encoded(image)
}

/// The collated record: the fold of the tags, then the YouTube description
/// override when the canonical url calls for it, then the image rewrite to
/// the proxied form.
pub open spec fn collate_spec(tags: Seq<MetaTagView>, base_url: Seq<char>) -> OpenGraphView {
    let folded = fold_tags(tags);
    let with_desc = if is_youtube_watch(folded.url) {
        OpenGraphView { description: Some(youtube_description(folded.url, tags)), ..folded }
    } else {
        folded
    };
    match with_desc.image {
        Some(img) => OpenGraphView { image: Some(proxied_image(base_url, img)), ..with_desc },
        None => with_desc,
    }
}

/// A canonical url of a YouTube watch or shorts page forces the description
/// to the YouTube form, overriding whatever description the tags folded.
pub proof fn lemma_youtube_override(tags: Seq<MetaTagView>, base_url: Seq<char>)
    requires
        is_youtube_watch(fold_tags(tags).url),
    ensures
        collate_spec(tags, base_url).description == Some(
            youtube_description(fold_tags(tags).url, tags),
        ),
{
}

/// Folds the parsed tags into the canonical preview record, applies the
/// site override and the image rewrite. `base_url` is the externally
/// supplied base of the image proxy.
pub fn collate_og_tags(tags: Vec<MetaTag>, base_url: &str) -> (r: OpenGraphResponse)
    ensures
        r@ == collate_spec(tags.deep_view(), base_url@),
{
    let mut og = OpenGraphResponse::default();
    let n = tags.len();
    let mut k: usize = 0;
    proof {
        assert(tags.deep_view().take(0) =~= Seq::<MetaTagView>::empty());
    }
    while k < n
        invariant
            0 <= k <= n,
            n == tags@.len(),
            og@ == fold_tags(tags.deep_view().take(k as int)),
        decreases n - k,
    {
        proof {
            assert(tags.deep_view().take(k + 1).drop_last() =~= tags.deep_view().take(k as int));
            assert(tags.deep_view().take(k + 1).last() == tags.deep_view()[k as int]);
        }
        let ghost before = og@;
        let tag = &tags[k];
        let name = match &tag.tag_type {
            TagType::Name(n) => n,
            TagType::Property(n) => n,
        };
        proof {
            assert(name@ == tag_key(tags.deep_view()[k as int]));
        }
        if str_equal(name.as_str(), "og:title") || str_equal(name.as_str(), "twitter:title") {
            og.title = tag.content.clone();
        } else if str_equal(name.as_str(), "og:type") {
            og.og_type = Some(tag.content.clone());
        } else if str_equal(name.as_str(), "og:url") {
            og.url = tag.content.clone();
        } else if str_equal(name.as_str(), "og:image") {
            og.image = Some(tag.content.clone());
        } else if str_equal(name.as_str(), "og:audio") {
            og.audio = Some(tag.content.clone());
        } else if str_equal(name.as_str(), "og:description") || str_equal(
            name.as_str(),
            "twitter:description",
        ) {
            og.description = Some(tag.content.clone());
        } else if str_equal(name.as_str(), "og:site_name") {
            og.site_name = Some(tag.content.clone());
        } else if str_equal(name.as_str(), "og:video") {
            og.video = Some(tag.content.clone());
        }
        proof {
            assert(og@ =~= apply_tag(before, tags.deep_view()[k as int]));
        }
        k += 1;
    }
    proof {
        assert(tags.deep_view().take(n as int) =~= tags.deep_view());
    }
    let ghost folded = og@;
    let watch = match_at_str(og.url.as_str(), 0, "https://youtube.com/watch") || match_at_str(
        og.url.as_str(),
        0,
        "https://www.youtube.com/watch",
    ) || match_at_str(og.url.as_str(), 0, "https://youtube.com/shorts") || match_at_str(
        og.url.as_str(),
        0,
        "https://www.youtube.com/shorts",
    );
    if watch {
        let mut link_name = String::new();
        let mut j: usize = 0;
        proof {
            assert(tags.deep_view().take(0) =~= Seq::<MetaTagView>::empty());
        }
        while j < n
            invariant
                0 <= j <= n,
                n == tags@.len(),
                link_name@ == last_name_tag_content(tags.deep_view().take(j as int)),
            decreases n - j,
        {
            proof {
                assert(tags.deep_view().take(j + 1).drop_last() =~= tags.deep_view().take(
                    j as int,
                ));
                assert(tags.deep_view().take(j + 1).last() == tags.deep_view()[j as int]);
            }
            let tag = &tags[j];
            match &tag.tag_type {
                TagType::Name(nm) => {
                    if match_at_str(nm.as_str(), 0, "name") {
                        link_name = tag.content.clone();
                    }
                },
                TagType::Property(_) => {},
            }
            j += 1;
        }
        proof {
            assert(tags.deep_view().take(n as int) =~= tags.deep_view());
        }
        let is_shorts = contains_str(og.url.as_str(), "/shorts");
        let mut d = "Youtube ".to_owned();
        if is_shorts {
            d.append("short");
        } else {
            d.append("video");
        }
        d.append(" by ");
        d.append(link_name.as_str());
        og.description = Some(d);
        proof {
            assert(og@ =~= OpenGraphView {
                description: Some(youtube_description(folded.url, tags.deep_view())),
                ..folded
            });
        }
    }
    let ghost with_desc = og@;
    let proxied: Option<String> = match &og.image {
        Some(img) => {
            let mut p = base_url.to_owned();
            p.append("/v1/image?url=");
            let enc = url_encode(img.as_str());
            p.append(enc.as_str());
            Some(p)
        },
        None => None,
    };
    og.image = proxied;
    proof {
        assert(og@ =~= collate_spec(tags.deep_view(), base_url@));
    }
    og
}

// ---------------------------------------------------------------------------
// Extraction pipeline
// ---------------------------------------------------------------------------
/// The whole extraction pipeline on an already fetched document: rejects a
/// url that fails the shape check, treats a document without a head region
/// as a failed fetch, and otherwise collates the parsed tags into a preview.
pub fn extract_metadata(url: &str, document: &str, base_url: &str) -> (r: Result<
    MetadataResponse,
    AppError,
>)
    ensures
        !url_shape_ok(url@) ==> r == Err::<MetadataResponse, AppError>(AppError::InvalidUrl),
        url_shape_ok(url@) && head_of(document@) is None ==> r == Err::<
            MetadataResponse,
            AppError,
        >(AppError::FetchFailed),
        head_of(document@) matches Some(h) ==> url_shape_ok(url@) ==> (r matches Ok(m)
            && m@.metadata == MetadataResponseTypeView::OpenGraph(
            collate_spec(tags_of(h), base_url@),
        )),
{
    if !is_valid_url(url) {
        return Err(AppError::InvalidUrl);
    }
    let head = match extract_head(document) {
        Some(h) => h,
        None => {
            return Err(AppError::FetchFailed);
        },
    };
    let tags = get_open_graph_tags(head.as_str());
    let og = collate_og_tags(tags, base_url);
    Ok(MetadataResponse { metadata: MetadataResponseType::OpenGraph(og) })
}

/// The extraction pipeline with the legacy-compatible output shape.
pub fn extract_metadata_cardyb(url: &str, document: &str, base_url: &str) -> (r: Result<
    crate::models::CardyBResponse,
    AppError,
>)
    ensures
        !url_shape_ok(url@) ==> r == Err::<crate::models::CardyBResponse, AppError>(
            AppError::InvalidUrl,
        ),
        url_shape_ok(url@) && head_of(document@) is None ==> r == Err::<
            crate::models::CardyBResponse,
            AppError,
        >(AppError::FetchFailed),
        head_of(document@) matches Some(h) ==> url_shape_ok(url@) ==> (r matches Ok(c) && c@
            == crate::models::cardyb_of(collate_spec(tags_of(h), base_url@))),
{
    match extract_metadata(url, document, base_url) {
        Ok(m) => match m.metadata {
            MetadataResponseType::OpenGraph(og) => Ok(crate::models::CardyBResponse::from(og)),
        },
        Err(e) => Err(e),
    }
}

} // verus!
