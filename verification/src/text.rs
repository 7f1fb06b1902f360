use vstd::prelude::*;

verus! {

/// The whitespace the tag grammar accepts between attributes: the Unicode
/// White_Space code points.
pub open spec fn is_ws(c: char) -> bool {
    ('\u{9}' as u32 <= c as u32 && c as u32 <= '\u{d}' as u32) || c == ' ' || c == '\u{85}' || c
        == '\u{a0}' || c == '\u{1680}' || ('\u{2000}' as u32 <= c as u32 && c as u32
        <= '\u{200a}' as u32) || c == '\u{2028}' || c == '\u{2029}' || c == '\u{202f}' || c
        == '\u{205f}' || c == '\u{3000}'
}

pub fn is_ws_char(c: char) -> (r: bool)
    ensures
        r == is_ws(c),
{
    let u = c as u32;
    (9 <= u && u <= 13) || c == ' ' || c == '\u{85}' || c == '\u{a0}' || c == '\u{1680}' || (0x2000
        <= u && u <= 0x200a) || c == '\u{2028}' || c == '\u{2029}' || c == '\u{202f}' || c
        == '\u{205f}' || c == '\u{3000}'
}

/// `pat` occurs in `s` starting at position `i`.
pub open spec fn match_at(s: Seq<char>, i: int, pat: Seq<char>) -> bool {
    0 <= i && i + pat.len() <= s.len() && s.subrange(i, i + pat.len() as int) == pat
}

/// The position of the leftmost occurrence of `pat` in `s`, or -1 if none.
pub open spec fn spec_find(s: Seq<char>, pat: Seq<char>) -> int
    decreases s.len(),
{
    if s.len() < pat.len() {
        -1
    } else if s.take(pat.len() as int) == pat {
        0
    } else if s.len() == 0 {
        -1
    } else {
        let r = spec_find(s.skip(1), pat);
        if r < 0 {
            -1
        } else {
            r + 1
        }
    }
}

/// `spec_find` names the leftmost occurrence: -1 means no occurrence at all,
/// and a non-negative result is an occurrence before which there is none.
pub proof fn lemma_find_characterization(s: Seq<char>, pat: Seq<char>)
    ensures
        spec_find(s, pat) == -1 || 0 <= spec_find(s, pat),
        spec_find(s, pat) == -1 ==> forall|i: int| !match_at(s, i, pat),
        spec_find(s, pat) >= 0 ==> match_at(s, spec_find(s, pat), pat),
        spec_find(s, pat) >= 0 ==> forall|i: int| 0 <= i < spec_find(s, pat) ==> !match_at(
            s,
            i,
            pat,
        ),
    decreases s.len(),
{
    if s.len() < pat.len() {
        assert(forall|i: int| !match_at(s, i, pat));
    } else if s.take(pat.len() as int) == pat {
        assert(s.subrange(0, pat.len() as int) == s.take(pat.len() as int));
        assert(match_at(s, 0, pat));
    } else if s.len() == 0 {
        assert(pat.len() == 0);
        assert(s.take(0) =~= pat);
        assert(false);
    } else {
        lemma_find_characterization(s.skip(1), pat);
        assert forall|i: int| 1 <= i implies match_at(s, i, pat) == match_at(
            s.skip(1),
            i - 1,
            pat,
        ) by {
            if 0 <= i - 1 && i - 1 + pat.len() <= s.skip(1).len() {
                assert(s.skip(1).subrange(i - 1, i - 1 + pat.len() as int) =~= s.subrange(
                    i,
                    i + pat.len() as int,
                ));
            }
        }
        assert(!match_at(s, 0, pat)) by {
            assert(s.take(pat.len() as int) == s.subrange(0, pat.len() as int));
        }
        let r = spec_find(s.skip(1), pat);
        if r < 0 {
            assert(forall|i: int| !match_at(s, i, pat)) by {
                assert(forall|i: int| !match_at(s.skip(1), i, pat));
            }
        }
    }
}

/// An occurrence of `pat` at `j` with none before it pins `spec_find` to `j`.
pub proof fn lemma_find_unique(s: Seq<char>, pat: Seq<char>, j: int)
    requires
        match_at(s, j, pat),
        forall|i: int| 0 <= i < j ==> !match_at(s, i, pat),
    ensures
        spec_find(s, pat) == j,
{
    lemma_find_characterization(s, pat);
    let f = spec_find(s, pat);
    if f == -1 {
        assert(!match_at(s, j, pat));
    } else if f < j {
        assert(!match_at(s, f, pat));
    } else if f > j {
        assert(!match_at(s, j, pat));
    }
}

/// Whether `pat` occurs at position `i` of `s`; compares character by
/// character.
pub fn match_at_str(s: &str, i: usize, pat: &str) -> (r: bool)
    ensures
        r == match_at(s@, i as int, pat@),
{
    let sl = s.unicode_len();
    let pl = pat.unicode_len();
    if i > sl || pl > sl - i {
        return false;
    }
    let mut j: usize = 0;
    while j < pl
        invariant
            0 <= j <= pl,
            i + pl <= sl,
            sl == s@.len(),
            pl == pat@.len(),
            forall|k: int| 0 <= k < j ==> s@[i + k] == pat@[k],
        decreases pl - j,
    {
        if s.get_char(i + j) != pat.get_char(j) {
            assert(s@.subrange(i as int, i + pl) != pat@) by {
                assert(s@.subrange(i as int, i + pl)[j as int] == s@[i + j]);
            }
            return false;
        }
        j += 1;
    }
    assert(s@.subrange(i as int, i + pl) =~= pat@);
    true
}

/// The leftmost occurrence of `pat` in `s`, as an index, or `None`.
pub fn find_str(s: &str, pat: &str) -> (r: Option<usize>)
    ensures
        r matches Some(i) ==> spec_find(s@, pat@) == i as int,
        r is None ==> spec_find(s@, pat@) == -1,
{
    let sl = s.unicode_len();
    let mut i: usize = 0;
    while i < sl
        invariant
            0 <= i <= sl,
            sl == s@.len(),
            forall|k: int| 0 <= k < i ==> !match_at(s@, k, pat@),
        decreases sl - i,
    {
        if match_at_str(s, i, pat) {
            proof {
                lemma_find_unique(s@, pat@, i as int);
            }
            return Some(i);
        }
        i += 1;
    }
    if match_at_str(s, sl, pat) {
        proof {
            lemma_find_unique(s@, pat@, sl as int);
        }
        return Some(sl);
    }
    proof {
        lemma_find_characterization(s@, pat@);
        if spec_find(s@, pat@) >= 0 {
            let f = spec_find(s@, pat@);
            assert(match_at(s@, f, pat@));
            assert(f + pat@.len() <= s@.len());
            assert(!match_at(s@, f, pat@));
        }
    }
    None
}

/// Whether `pat` occurs anywhere in `s`.
pub fn contains_str(s: &str, pat: &str) -> (r: bool)
    ensures
        r == (spec_find(s@, pat@) >= 0),
{
    proof {
        lemma_find_characterization(s@, pat@);
    }
    match find_str(s, pat) {
        Some(_) => true,
        None => false,
    }
}

/// Whether two strings hold the same characters.
pub fn str_equal(a: &str, b: &str) -> (r: bool)
    ensures
        r == (a@ == b@),
{
    let al = a.unicode_len();
    let bl = b.unicode_len();
    if al != bl {
        return false;
    }
    let mut i: usize = 0;
    while i < al
        invariant
            0 <= i <= al,
            al == a@.len(),
            al == b@.len(),
            forall|k: int| 0 <= k < i ==> a@[k] == b@[k],
        decreases al - i,
    {
        if a.get_char(i) != b.get_char(i) {
            return false;
        }
        i += 1;
    }
    assert(a@ =~= b@);
    true
}

/// Splitting `s` on each non-overlapping leftmost occurrence of `pat`,
/// scanning left to right; always at least one piece.
pub open spec fn spec_split(s: Seq<char>, pat: Seq<char>) -> Seq<Seq<char>>
    decreases s.len(),
{
    let f = spec_find(s, pat);
    if pat.len() == 0 || f < 0 || f + pat.len() > s.len() {
        seq![s]
    } else {
        seq![s.take(f)] + spec_split(s.skip(f + pat.len() as int), pat)
    }
}

/// Helper for `split_str`: appends the pieces of `s` to `acc`.
fn split_into(s: &str, pat: &str, acc: &mut Vec<String>)
    requires
        pat@.len() > 0,
    ensures
        final(acc).deep_view() == old(acc).deep_view() + spec_split(s@, pat@),
    decreases s@.len(),
{
    proof {
        lemma_find_characterization(s@, pat@);
    }
    match find_str(s, pat) {
        Some(i) => {
            let pl = pat.unicode_len();
            let sl = s.unicode_len();
            assert(i + pl <= sl);
            let head = s.substring_char(0, i).to_owned();
            let tail = s.substring_char(i + pl, sl);
            acc.push(head);
            assert(acc.deep_view() =~= old(acc).deep_view() + seq![s@.take(i as int)]);
            assert(tail@ == s@.skip(i + pl));
            split_into(tail, pat, acc);
            assert(acc.deep_view() =~= old(acc).deep_view() + spec_split(s@, pat@));
        },
        None => {
            acc.push(s.to_owned());
            assert(acc.deep_view() =~= old(acc).deep_view() + seq![s@]);
        },
    }
}

/// Splits `s` on each non-overlapping occurrence of `pat`, left to right.
pub fn split_str(s: &str, pat: &str) -> (r: Vec<String>)
    requires
        pat@.len() > 0,
    ensures
        r.deep_view() == spec_split(s@, pat@),
{
    let mut acc: Vec<String> = Vec::new();
    split_into(s, pat, &mut acc);
    assert(acc.deep_view() =~= spec_split(s@, pat@));
    acc
}

/// The pieces rejoined with `sep` between each pair.
pub open spec fn spec_join(parts: Seq<Seq<char>>, sep: Seq<char>) -> Seq<char>
    decreases parts.len(),
{
    if parts.len() == 0 {
        Seq::<char>::empty()
    } else if parts.len() == 1 {
        parts[0]
    } else {
        parts[0] + sep + spec_join(parts.skip(1), sep)
    }
}

/// Joining one more piece at the end appends a separator and the piece,
/// except onto an empty list.
pub proof fn lemma_join_push(parts: Seq<Seq<char>>, x: Seq<char>, sep: Seq<char>)
    ensures
        parts.len() == 0 ==> spec_join(parts.push(x), sep) == x,
        parts.len() > 0 ==> spec_join(parts.push(x), sep) == spec_join(parts, sep) + sep + x,
    decreases parts.len(),
{
    if parts.len() == 0 {
        assert(parts.push(x)[0] == x);
    } else if parts.len() == 1 {
        assert(parts.push(x)[0] == parts[0]);
        assert(parts.push(x).skip(1) =~= seq![x]);
        assert(spec_join(seq![x], sep) == x);
    } else {
        lemma_join_push(parts.skip(1), x, sep);
        assert(parts.push(x).skip(1) =~= parts.skip(1).push(x));
        assert(parts.push(x)[0] == parts[0]);
        assert(spec_join(parts.push(x), sep) == parts[0] + sep + spec_join(
            parts.skip(1).push(x),
            sep,
        ));
    }
}

/// Joins the pieces with `sep` between each pair.
pub fn join_str(parts: &Vec<String>, sep: &str) -> (r: String)
    ensures
        r@ == spec_join(parts.deep_view(), sep@),
{
    let mut acc = String::new();
    let mut i: usize = 0;
    while i < parts.len()
        invariant
            0 <= i <= parts@.len(),
            acc@ == spec_join(parts.deep_view().take(i as int), sep@),
        decreases parts@.len() - i,
    {
        if i > 0 {
            acc.append(sep);
        }
        acc.append(parts[i].as_str());
        proof {
            lemma_join_push(parts.deep_view().take(i as int), parts@[i as int]@, sep@);
            assert(parts.deep_view().take(i + 1) =~= parts.deep_view().take(i as int).push(
                parts@[i as int]@,
            ));
        }
        i += 1;
    }
    proof {
        assert(parts.deep_view().take(parts@.len() as int) =~= parts.deep_view());
    }
    acc
}

} // verus!
