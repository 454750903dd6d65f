//! Turning published tags into version candidates and choosing among them.

use vstd::prelude::*;
use vstd::string::{StrSliceExecFns, StringExecFns};
use crate::error::ResolveError;
use crate::text::{chars_of, ends_with, find_from, first_index, lemma_first_index_is, same_text};
use crate::version::{
    compare_numbers, compare_spec, is_valid_version, lemma_lex_order_equal,
    lemma_lex_order_reversed, lemma_lex_order_transitive, numbers_of, parse_version,
    version_numbers, VersionOrdering,
};

verus! {

/// A published tag, the text that is left of it after stripping, and
/// whether that text is a version.
#[derive(Debug)]
pub struct TagCandidate {
    pub raw: String,
    pub normalized: String,
    pub is_valid_version: bool,
}

impl TagCandidate {
    /// The flag says what the normalized text is.
    pub open spec fn wf(&self) -> bool {
        self.is_valid_version == is_valid_version(self.normalized@)
    }

    /// A copy of this candidate.
    pub fn duplicate(&self) -> (r: TagCandidate)
        ensures
            r == *self,
    {
        TagCandidate {
            raw: self.raw.clone(),
            normalized: self.normalized.clone(),
            is_valid_version: self.is_valid_version,
        }
    }
}

/// The text of an optional string slice.
pub open spec fn text_of(s: Option<&str>) -> Option<Seq<char>> {
    match s {
        Some(a) => Some(a@),
        None => None,
    }
}

/// `s` without a single leading `v`.
pub open spec fn strip_marker(s: Seq<char>) -> Seq<char> {
    if s.len() > 0 && s[0] == 'v' {
        s.skip(1)
    } else {
        s
    }
}

/// `s` without its build suffix. With an architecture that is the literal
/// suffix `-` plus the architecture, where `s` ends with it; without one it
/// is everything from the first `-` onward.
pub open spec fn strip_build(s: Seq<char>, arch: Option<Seq<char>>) -> Seq<char> {
    match arch {
        Some(a) => if ends_with(s, seq!['-'] + a) {
            s.take(s.len() - a.len() - 1)
        } else {
            s
        },
        None => s.take(first_index(s, '-')),
    }
}

/// A tag without its version marker and its build suffix.
pub open spec fn stripped(s: Seq<char>, arch: Option<Seq<char>>) -> Seq<char> {
    strip_build(strip_marker(s), arch)
}

/// Whether what stands in `v` from `start` on ends with `-` and `w`.
fn ends_with_dash(v: &Vec<char>, start: usize, w: &Vec<char>) -> (r: bool)
    requires
        start <= v@.len(),
    ensures
        r == ends_with(v@.skip(start as int), seq!['-'] + w@),
{
    let n = v.len();
    let m = w.len();
    let ghost s = v@.skip(start as int);
    let ghost suffix = seq!['-'] + w@;
    if m >= n - start {
        return false;
    }
    let base: usize = n - m - 1;
    assert(s.skip(s.len() - suffix.len()) =~= v@.skip(base as int));
    if v[base] != '-' {
        assert(v@.skip(base as int)[0] != suffix[0]);
        return false;
    }
    let mut j: usize = 0;
    while j < m
        invariant
            j <= m,
            m == w@.len(),
            base + 1 + m == n,
            n == v@.len(),
            start <= v@.len(),
            s == v@.skip(start as int),
            suffix == seq!['-'] + w@,
            suffix.len() <= s.len(),
            s.skip(s.len() - suffix.len()) == v@.skip(base as int),
            v@[base as int] == '-',
            forall|k: int| 0 <= k < j ==> v@[base + 1 + k] == w@[k],
        decreases m - j,
    {
        if v[base + 1 + j] != w[j] {
            assert(v@.skip(base as int)[j + 1] != suffix[j + 1]);
            return false;
        }
        j += 1;
    }
    assert(v@.skip(base as int) =~= suffix);
    true
}

/// Strips a single leading `v` and the build suffix from a tag.
pub fn strip_suffix<'a>(version: &'a str, arch: Option<&str>) -> (r: &'a str)
    ensures
        r@ == stripped(version@, text_of(arch)),
{
    let v = chars_of(version);
    let n = v.len();
    let start: usize = if n > 0 && v[0] == 'v' {
        1
    } else {
        0
    };
    let ghost s = strip_marker(version@);
    assert(s =~= v@.skip(start as int));
    match arch {
        None => {
            let e = find_from(&v, start, '-');
            assert(s.take(e - start) =~= version@.subrange(start as int, e as int));
            version.substring_char(start, e)
        },
        Some(a) => {
            let w = chars_of(a);
            if ends_with_dash(&v, start, &w) {
                let e: usize = n - w.len() - 1;
                assert(s.take(s.len() - w@.len() - 1) =~= version@.subrange(
                    start as int,
                    e as int,
                ));
                version.substring_char(start, e)
            } else {
                assert(s =~= version@.subrange(start as int, n as int));
                version.substring_char(start, n)
            }
        },
    }
}

/// Strips the tag and classifies what is left.
pub fn normalize(raw_tag: &str, architecture_filter: Option<&str>) -> (c: TagCandidate)
    ensures
        c.raw@ == raw_tag@,
        c.normalized@ == stripped(raw_tag@, text_of(architecture_filter)),
        c.wf(),
{
    let text = strip_suffix(raw_tag, architecture_filter);
    let chars = chars_of(text);
    let valid = parse_version(&chars).is_some();
    TagCandidate {
        raw: String::from_str(raw_tag),
        normalized: String::from_str(text),
        is_valid_version: valid,
    }
}

/// Position `i` holds the latest version among `texts`: it is a version, no
/// version among them is greater, and every version before it is smaller.
pub open spec fn is_latest_at(texts: Seq<Seq<char>>, i: int) -> bool {
    &&& 0 <= i < texts.len()
    &&& is_valid_version(texts[i])
    &&& forall|j: int|
        0 <= j < texts.len() && is_valid_version(#[trigger] texts[j]) ==> compare_spec(
            texts[j],
            texts[i],
        ) != VersionOrdering::Greater
    &&& forall|j: int|
        0 <= j < i && is_valid_version(#[trigger] texts[j]) ==> compare_spec(texts[j], texts[i])
            == VersionOrdering::Less
}

/// At least one of `texts` is a version.
pub open spec fn has_version(texts: Seq<Seq<char>>) -> bool {
    exists|j: int| 0 <= j < texts.len() && is_valid_version(#[trigger] texts[j])
}

/// The position of the latest version among `texts`.
pub open spec fn latest_position(texts: Seq<Seq<char>>) -> int {
    choose|i: int| is_latest_at(texts, i)
}

/// The normalized texts of a list of candidates.
pub open spec fn normalized_texts(c: Seq<TagCandidate>) -> Seq<Seq<char>> {
    Seq::new(c.len(), |i: int| c[i].normalized@)
}

/// At most one position holds the latest version, so `latest_position` is
/// that position wherever one exists.
pub proof fn law_latest_unique(texts: Seq<Seq<char>>, i: int, j: int)
    requires
        is_latest_at(texts, i),
        is_latest_at(texts, j),
    ensures
        i == j,
        latest_position(texts) == i,
{
    lemma_latest_unique_pair(texts, i, j);
    let p = latest_position(texts);
    lemma_latest_unique_pair(texts, p, i);
}

/// Where one of `texts` is a version, one position holds the latest version,
/// and `latest_position` is that position.
pub proof fn law_latest_exists(texts: Seq<Seq<char>>)
    requires
        has_version(texts),
    ensures
        is_latest_at(texts, latest_position(texts)),
    decreases texts.len(),
{
    let n = texts.len() - 1;
    let prefix = texts.drop_last();
    assert forall|j: int| 0 <= j < n implies #[trigger] texts[j] == prefix[j] by {}
    if has_version(prefix) {
        law_latest_exists(prefix);
        let held = latest_position(prefix);
        assert(texts[held] == prefix[held]);
        let last = version_numbers(texts[n]);
        lemma_lex_order_reversed(version_numbers(texts[held]), last);
        lemma_lex_order_equal(last, last);
        if is_valid_version(texts[n]) && compare_spec(texts[held], texts[n])
            == VersionOrdering::Less {
            assert forall|j: int| 0 <= j < n && is_valid_version(
                #[trigger] texts[j],
            ) implies compare_spec(texts[j], texts[n]) == VersionOrdering::Less by {
                assert(is_valid_version(prefix[j]));
                lemma_lex_order_transitive(
                    version_numbers(texts[j]),
                    version_numbers(texts[held]),
                    last,
                );
            }
            assert(is_latest_at(texts, n));
        } else {
            assert forall|j: int| 0 <= j < texts.len() && is_valid_version(
                #[trigger] texts[j],
            ) implies compare_spec(texts[j], texts[held]) != VersionOrdering::Greater by {
                if j < n {
                    assert(is_valid_version(prefix[j]));
                }
            }
            assert forall|j: int| 0 <= j < held && is_valid_version(
                #[trigger] texts[j],
            ) implies compare_spec(texts[j], texts[held]) == VersionOrdering::Less by {
                assert(is_valid_version(prefix[j]));
            }
            assert(is_latest_at(texts, held));
        }
    } else {
        assert forall|j: int| 0 <= j < n implies !is_valid_version(#[trigger] texts[j]) by {
            assert(!is_valid_version(prefix[j]));
        }
        lemma_lex_order_equal(version_numbers(texts[n]), version_numbers(texts[n]));
        assert(is_latest_at(texts, n));
    }
}

/// Two positions that both hold the latest version are the same position.
proof fn lemma_latest_unique_pair(texts: Seq<Seq<char>>, i: int, j: int)
    requires
        is_latest_at(texts, i),
        is_latest_at(texts, j),
    ensures
        i == j,
{
    if i < j {
        assert(is_valid_version(texts[i]));
        assert(compare_spec(texts[i], texts[j]) == VersionOrdering::Less);
        assert(is_valid_version(texts[j]));
        assert(compare_spec(texts[j], texts[i]) != VersionOrdering::Greater);
        lemma_lex_order_reversed(version_numbers(texts[i]), version_numbers(texts[j]));
    } else if j < i {
        assert(is_valid_version(texts[j]));
        assert(compare_spec(texts[j], texts[i]) == VersionOrdering::Less);
        assert(is_valid_version(texts[i]));
        assert(compare_spec(texts[i], texts[j]) != VersionOrdering::Greater);
        lemma_lex_order_reversed(version_numbers(texts[j]), version_numbers(texts[i]));
    }
}


/// The position of the latest version among well-formed candidates, or
/// `None` where none of them is a version. Among equal versions the first
/// one is chosen.
pub fn select_latest_index(candidates: &Vec<TagCandidate>) -> (r: Option<usize>)
    requires
        forall|i: int| 0 <= i < candidates@.len() ==> (#[trigger] candidates@[i]).wf(),
    ensures
        match r {
            Some(i) => is_latest_at(normalized_texts(candidates@), i as int),
            None => !has_version(normalized_texts(candidates@)),
        },
{
    let ghost texts = normalized_texts(candidates@);
    let mut best: Option<usize> = None;
    let mut best_numbers: Vec<u64> = Vec::new();
    let mut k: usize = 0;
    while k < candidates.len()
        invariant
            k <= candidates@.len(),
            texts == normalized_texts(candidates@),
            forall|i: int| 0 <= i < candidates@.len() ==> (#[trigger] candidates@[i]).wf(),
            match best {
                None => forall|j: int| 0 <= j < k ==> !is_valid_version(#[trigger] texts[j]),
                Some(b) => {
                    &&& b < k
                    &&& is_valid_version(texts[b as int])
                    &&& numbers_of(best_numbers@) == version_numbers(texts[b as int])
                    &&& forall|j: int|
                        0 <= j < k && is_valid_version(#[trigger] texts[j]) ==> compare_spec(
                            texts[j],
                            texts[b as int],
                        ) != VersionOrdering::Greater
                    &&& forall|j: int|
                        0 <= j < b && is_valid_version(#[trigger] texts[j]) ==> compare_spec(
                            texts[j],
                            texts[b as int],
                        ) == VersionOrdering::Less
                },
            },
        decreases candidates@.len() - k,
    {
        let candidate = &candidates[k];
        assert(candidate.wf());
        assert(texts[k as int] == candidate.normalized@);
        if candidate.is_valid_version {
            let chars = chars_of(candidate.normalized.as_str());
            match parse_version(&chars) {
                Some(numbers) => {
                    proof {
                        lemma_lex_order_equal(
                            version_numbers(texts[k as int]),
                            version_numbers(texts[k as int]),
                        );
                    }
                    match best {
                        None => {
                            best = Some(k);
                            best_numbers = numbers;
                        },
                        Some(b) => {
                            match compare_numbers(&numbers, &best_numbers) {
                                VersionOrdering::Greater => {
                                    proof {
                                        let new = version_numbers(texts[k as int]);
                                        let held = version_numbers(texts[b as int]);
                                        lemma_lex_order_reversed(new, held);
                                        assert forall|j: int|
                                            0 <= j < k && is_valid_version(
                                                #[trigger] texts[j],
                                            ) implies compare_spec(texts[j], texts[k as int])
                                            == VersionOrdering::Less by {
                                            lemma_lex_order_transitive(
                                                version_numbers(texts[j]),
                                                held,
                                                new,
                                            );
                                        }
                                    }
                                    best = Some(k);
                                    best_numbers = numbers;
                                },
                                _ => {},
                            }
                        },
                    }
                },
                None => {},
            }
        }
        k += 1;
    }
    proof {
        if best is None {
            assert forall|j: int| 0 <= j < texts.len() implies !is_valid_version(
                #[trigger] texts[j],
            ) by {}
        }
    }
    best
}

/// The latest version among well-formed candidates.
pub fn select_latest(candidates: &Vec<TagCandidate>) -> (r: Result<TagCandidate, ResolveError>)
    requires
        forall|i: int| 0 <= i < candidates@.len() ==> (#[trigger] candidates@[i]).wf(),
    ensures
        match r {
            Ok(t) => has_version(normalized_texts(candidates@)) && is_latest_at(
                normalized_texts(candidates@),
                latest_position(normalized_texts(candidates@)),
            ) && t == candidates@[latest_position(normalized_texts(candidates@))],
            Err(e) => e == ResolveError::NoValidTagsFound && !has_version(
                normalized_texts(candidates@),
            ),
        },
{
    match select_latest_index(candidates) {
        Some(i) => {
            proof {
                let texts = normalized_texts(candidates@);
                law_latest_unique(texts, i as int, i as int);
                assert(is_valid_version(texts[i as int]));
            }
            Ok(candidates[i].duplicate())
        },
        None => Err(ResolveError::NoValidTagsFound),
    }
}

/// The texts of a list of tags.
pub open spec fn texts_of(tags: Seq<String>) -> Seq<Seq<char>> {
    Seq::new(tags.len(), |i: int| tags[i]@)
}

/// Each of `tags` without its version marker and build suffix.
pub open spec fn stripped_texts(tags: Seq<Seq<char>>, arch: Option<Seq<char>>) -> Seq<Seq<char>> {
    Seq::new(tags.len(), |i: int| stripped(tags[i], arch))
}

/// The tag among `tags` that holds the latest version, as it was published;
/// `None` where no tag is a version once stripped.
pub open spec fn latest_tag_of(tags: Seq<Seq<char>>, arch: Option<Seq<char>>) -> Option<Seq<char>> {
    if has_version(stripped_texts(tags, arch)) {
        Some(tags[latest_position(stripped_texts(tags, arch))])
    } else {
        None
    }
}

/// The position of the first tag that is literally `main`, or the length of
/// the list where there is none.
pub open spec fn sentinel_position(tags: Seq<Seq<char>>) -> int {
    first_index(tags, "main"@)
}

/// What the rolling-list policy makes of `tags`: the tag that follows the
/// first `main` tag.
pub open spec fn after_sentinel(tags: Seq<Seq<char>>) -> Result<Seq<char>, ResolveError> {
    let p = sentinel_position(tags);
    if p < 0 || p >= tags.len() {
        Err(ResolveError::SentinelNotFound)
    } else if p + 1 == tags.len() {
        Err(ResolveError::NoTagAfterSentinel)
    } else {
        Ok(tags[p + 1])
    }
}

/// The tag that holds the latest version: each tag is stripped, those that
/// are no version are left out, and the greatest, first-seen one is chosen.
/// The tag is returned as it was published.
pub fn latest_tag(tags: &Vec<String>, arch: Option<&str>) -> (r: Result<String, ResolveError>)
    ensures
        match r {
            Ok(t) => latest_tag_of(texts_of(tags@), text_of(arch)) == Some(t@) && is_latest_at(
                stripped_texts(texts_of(tags@), text_of(arch)),
                latest_position(stripped_texts(texts_of(tags@), text_of(arch))),
            ),
            Err(e) => e == ResolveError::NoValidTagsFound && latest_tag_of(
                texts_of(tags@),
                text_of(arch),
            ) is None,
        },
{
    let ghost texts = stripped_texts(texts_of(tags@), text_of(arch));
    let mut candidates: Vec<TagCandidate> = Vec::new();
    let mut k: usize = 0;
    while k < tags.len()
        invariant
            k <= tags@.len(),
            candidates@.len() == k,
            texts == stripped_texts(texts_of(tags@), text_of(arch)),
            forall|i: int| 0 <= i < k ==> (#[trigger] candidates@[i]).wf(),
            forall|i: int| 0 <= i < k ==> (#[trigger] candidates@[i]).normalized@ == texts[i],
        decreases tags@.len() - k,
    {
        let c = normalize(tags[k].as_str(), arch);
        candidates.push(c);
        k += 1;
    }
    assert(normalized_texts(candidates@) =~= texts);
    match select_latest_index(&candidates) {
        Some(i) => {
            proof {
                law_latest_unique(texts, i as int, i as int);
                assert(is_valid_version(texts[i as int]));
            }
            Ok(tags[i].clone())
        },
        None => Err(ResolveError::NoValidTagsFound),
    }
}

/// The tag that follows the first `main` tag in a rolling tag list.
pub fn select_after_sentinel(tags: &Vec<String>) -> (r: Result<String, ResolveError>)
    ensures
        match r {
            Ok(t) => after_sentinel(texts_of(tags@)) == Ok::<Seq<char>, ResolveError>(t@),
            Err(e) => after_sentinel(texts_of(tags@)) == Err::<Seq<char>, ResolveError>(e),
        },
{
    let ghost texts = texts_of(tags@);
    let mut k: usize = 0;
    while k < tags.len() && !same_text(tags[k].as_str(), "main")
        invariant
            k <= tags@.len(),
            texts == texts_of(tags@),
            forall|j: int| 0 <= j < k ==> texts[j] != "main"@,
        decreases tags@.len() - k,
    {
        assert(texts[k as int] == tags@[k as int]@);
        k += 1;
    }
    proof {
        if k < tags@.len() {
            assert(texts[k as int] == tags@[k as int]@);
        }
        lemma_first_index_is(texts, "main"@, k as int);
    }
    if k == tags.len() {
        Err(ResolveError::SentinelNotFound)
    } else if k + 1 == tags.len() {
        Err(ResolveError::NoTagAfterSentinel)
    } else {
        Ok(tags[k + 1].clone())
    }
}

} // verus!
