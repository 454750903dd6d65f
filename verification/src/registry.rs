//! The registry tag client without its transport: which request to send
//! for a registry, and what a reply means.

use vstd::prelude::*;
use vstd::string::StringExecFns;
use crate::error::ResolveError;
use crate::json::{
    elements, json_elements, json_member, json_parsed, json_string, member, parse_json, string_of,
};
use crate::tag::{
    after_sentinel, latest_tag, latest_tag_of, select_after_sentinel, text_of, texts_of,
};
use crate::text::{chars_of, same_text};
use crate::version::{all_digits, digits_value, parse_digits};

verus! {

/// The kinds of registry that the client can ask.
#[derive(Clone, Copy, Debug, PartialEq, Eq, Structural)]
pub enum RegistryKind {
    DockerHub,
    Ghcr,
}

/// Where the tags of an image are published.
#[derive(Debug)]
pub struct RegistryRef {
    pub namespace: String,
    pub repository: String,
    pub kind: RegistryKind,
}

/// A request for the tags of an image: the address to GET, and the value
/// of the `Authorization` header where the registry wants one.
#[derive(Debug)]
pub struct TagRequest {
    pub url: String,
    pub authorization: Option<String>,
}

/// The registry kind that a stored image source names.
pub open spec fn kind_of(image_source: Seq<char>) -> Option<RegistryKind> {
    if image_source == "dockerhub"@ {
        Some(RegistryKind::DockerHub)
    } else if image_source == "ghcr"@ {
        Some(RegistryKind::Ghcr)
    } else {
        None
    }
}

/// The address of the tag list of an image.
pub open spec fn tags_url_text(
    kind: RegistryKind,
    namespace: Seq<char>,
    repository: Seq<char>,
) -> Seq<char> {
    match kind {
        RegistryKind::DockerHub => "https://hub.docker.com/v2/repositories/"@ + namespace + "/"@
            + repository + "/tags?page_size=100"@,
        RegistryKind::Ghcr => "https://ghcr.io/v2/"@ + namespace + "/"@ + repository
            + "/tags/list?n=10"@,
    }
}

/// The address of the page that presents an image to people.
pub open spec fn container_url_text(
    kind: RegistryKind,
    namespace: Seq<char>,
    repository: Seq<char>,
) -> Seq<char> {
    match kind {
        RegistryKind::DockerHub => "https://hub.docker.com/r/"@ + namespace + "/"@ + repository,
        RegistryKind::Ghcr => "https://ghcr.io/"@ + namespace + "/"@ + repository,
    }
}

/// Reads a stored image source: `dockerhub` or `ghcr`.
pub fn parse_kind(image_source: &str) -> (r: Result<RegistryKind, ResolveError>)
    ensures
        match r {
            Ok(k) => kind_of(image_source@) == Some(k),
            Err(e) => e == ResolveError::RegistryUnsupported && kind_of(image_source@) is None,
        },
{
    if same_text(image_source, "dockerhub") {
        Ok(RegistryKind::DockerHub)
    } else if same_text(image_source, "ghcr") {
        Ok(RegistryKind::Ghcr)
    } else {
        Err(ResolveError::RegistryUnsupported)
    }
}

/// The address of the tag list of an image: the first page of at most 100
/// tags on Docker Hub, the first 10 tags on GHCR.
pub fn tags_url(kind: RegistryKind, namespace: &str, repository: &str) -> (r: String)
    ensures
        r@ == tags_url_text(kind, namespace@, repository@),
{
    match kind {
        RegistryKind::DockerHub => String::from_str(
            "https://hub.docker.com/v2/repositories/",
        ).concat(namespace).concat("/").concat(repository).concat("/tags?page_size=100"),
        RegistryKind::Ghcr => String::from_str("https://ghcr.io/v2/").concat(namespace).concat(
            "/",
        ).concat(repository).concat("/tags/list?n=10"),
    }
}

/// The address of the page that presents an image to people.
pub fn construct_container_url(image_source: &str, namespace: &str, repository: &str) -> (r:
    Result<String, ResolveError>)
    ensures
        match r {
            Ok(url) => kind_of(image_source@) is Some && url@ == container_url_text(
                kind_of(image_source@)->0,
                namespace@,
                repository@,
            ),
            Err(e) => e == ResolveError::RegistryUnsupported && kind_of(image_source@) is None,
        },
{
    match parse_kind(image_source) {
        Ok(RegistryKind::DockerHub) => Ok(
            String::from_str("https://hub.docker.com/r/").concat(namespace).concat("/").concat(
                repository,
            ),
        ),
        Ok(RegistryKind::Ghcr) => Ok(
            String::from_str("https://ghcr.io/").concat(namespace).concat("/").concat(repository),
        ),
        Err(e) => Err(e),
    }
}

/// The request that fetches the tags of `registry`. GHCR wants a token;
/// Docker Hub is asked without one, whether or not one is at hand.
pub fn plan_request(registry: &RegistryRef, token: Option<&str>) -> (r: Result<
    TagRequest,
    ResolveError,
>)
    ensures
        match r {
            Ok(request) => {
                &&& request.url@ == tags_url_text(
                    registry.kind,
                    registry.namespace@,
                    registry.repository@,
                )
                &&& match registry.kind {
                    RegistryKind::DockerHub => request.authorization is None,
                    RegistryKind::Ghcr => token is Some && request.authorization is Some
                        && request.authorization->0@ == "Bearer "@ + token->0@,
                }
            },
            Err(e) => e == ResolveError::AuthRequired && registry.kind == RegistryKind::Ghcr
                && token is None,
        },
{
    let url = tags_url(registry.kind, registry.namespace.as_str(), registry.repository.as_str());
    match registry.kind {
        RegistryKind::DockerHub => Ok(TagRequest { url, authorization: None }),
        RegistryKind::Ghcr => match token {
            Some(t) => Ok(
                TagRequest { url, authorization: Some(String::from_str("Bearer ").concat(t)) },
            ),
            None => Err(ResolveError::AuthRequired),
        },
    }
}

/// The key under which a reply of this kind lists its tags.
pub open spec fn list_key(kind: RegistryKind) -> Seq<char> {
    match kind {
        RegistryKind::DockerHub => "results"@,
        RegistryKind::Ghcr => "tags"@,
    }
}

/// The tag that one element of the list stands for: on GHCR the element is
/// the tag, on Docker Hub it is an object that holds the tag under `name`.
pub open spec fn element_tag(kind: RegistryKind, item: serde_json::Value) -> Option<Seq<char>> {
    match kind {
        RegistryKind::Ghcr => json_string(item),
        RegistryKind::DockerHub => match json_member(item, "name"@) {
            Some(name) => json_string(name),
            None => None,
        },
    }
}

/// The tags that the elements stand for, in their order; `None` where one
/// of the elements stands for none.
pub open spec fn element_tags(kind: RegistryKind, items: Seq<serde_json::Value>) -> Option<
    Seq<Seq<char>>,
> {
    if forall|i: int| 0 <= i < items.len() ==> (#[trigger] element_tag(kind, items[i])) is Some {
        Some(Seq::new(items.len(), |i: int| element_tag(kind, items[i])->0))
    } else {
        None
    }
}

/// The tags that a parsed reply lists; `None` where it has another shape.
pub open spec fn value_tags(kind: RegistryKind, v: serde_json::Value) -> Option<Seq<Seq<char>>> {
    match json_member(v, list_key(kind)) {
        Some(list) => match json_elements(list) {
            Some(items) => element_tags(kind, items),
            None => None,
        },
        None => None,
    }
}

/// The tags that the body of a reply lists; `None` where the body is no
/// JSON text or has another shape.
pub open spec fn body_tags(kind: RegistryKind, body: Seq<char>) -> Option<Seq<Seq<char>>> {
    match json_parsed(body) {
        Some(v) => value_tags(kind, v),
        None => None,
    }
}

/// The tag that one element of the list stands for.
fn tag_of_element(kind: RegistryKind, item: &serde_json::Value) -> (r: Option<String>)
    ensures
        match r {
            Some(t) => element_tag(kind, *item) == Some(t@),
            None => element_tag(kind, *item) is None,
        },
{
    let holder = match kind {
        RegistryKind::Ghcr => Some(item),
        RegistryKind::DockerHub => member(item, "name"),
    };
    match holder {
        Some(h) => match string_of(h) {
            Some(s) => Some(String::from_str(s)),
            None => None,
        },
        None => None,
    }
}

/// The tags that a parsed reply lists, in the order of the reply.
pub fn tags_in_value(kind: RegistryKind, v: &serde_json::Value) -> (r: Result<
    Vec<String>,
    ResolveError,
>)
    ensures
        match r {
            Ok(tags) => value_tags(kind, *v) == Some(texts_of(tags@)),
            Err(e) => e == ResolveError::MalformedResponse && value_tags(kind, *v) is None,
        },
{
    let key = match kind {
        RegistryKind::DockerHub => "results",
        RegistryKind::Ghcr => "tags",
    };
    let list = match member(v, key) {
        Some(list) => list,
        None => {
            return Err(ResolveError::MalformedResponse);
        },
    };
    let items = match elements(list) {
        Some(items) => items,
        None => {
            return Err(ResolveError::MalformedResponse);
        },
    };
    let mut tags: Vec<String> = Vec::new();
    let mut k: usize = 0;
    while k < items.len()
        invariant
            k <= items@.len(),
            tags@.len() == k,
            json_member(*v, list_key(kind)) == Some(*list),
            json_elements(*list) == Some(items@),
            forall|i: int| 0 <= i < k ==> element_tag(kind, #[trigger] items@[i]) == Some(tags@[i]@),
        decreases items@.len() - k,
    {
        match tag_of_element(kind, &items[k]) {
            Some(t) => {
                tags.push(t);
            },
            None => {
                assert(element_tag(kind, items@[k as int]) is None);
                return Err(ResolveError::MalformedResponse);
            },
        }
        k += 1;
    }
    proof {
        assert(element_tags(kind, items@) is Some);
        assert(element_tags(kind, items@)->0 =~= texts_of(tags@));
    }
    Ok(tags)
}

/// The tags that the body of a reply lists, in the order of the reply.
pub fn decode_tags(kind: RegistryKind, body: &str) -> (r: Result<Vec<String>, ResolveError>)
    ensures
        match r {
            Ok(tags) => body_tags(kind, body@) == Some(texts_of(tags@)),
            Err(e) => e == ResolveError::MalformedResponse && body_tags(kind, body@) is None,
        },
{
    match parse_json(body) {
        Ok(v) => tags_in_value(kind, &v),
        Err(_) => Err(ResolveError::MalformedResponse),
    }
}


/// A status in 200..=299.
pub open spec fn is_success(status: u16) -> bool {
    200 <= status <= 299
}

/// The latest tag among `tags` under the policy of the registry kind: the
/// greatest version on Docker Hub, the tag after `main` on GHCR.
pub open spec fn latest_of(kind: RegistryKind, tags: Seq<Seq<char>>, arch: Option<Seq<char>>)
    -> Result<Seq<char>, ResolveError> {
    match kind {
        RegistryKind::DockerHub => match latest_tag_of(tags, arch) {
            Some(t) => Ok(t),
            None => Err(ResolveError::NoValidTagsFound),
        },
        RegistryKind::Ghcr => after_sentinel(tags),
    }
}

/// What a reply of a registry says about its tags.
pub open spec fn reply_tags(
    kind: RegistryKind,
    status: u16,
    retry_after: Option<u64>,
    body: Seq<char>,
) -> Result<Seq<Seq<char>>, ResolveError> {
    if status == 429 {
        Err(ResolveError::RateLimited { retry_after })
    } else if !is_success(status) {
        Err(ResolveError::TransportError)
    } else {
        match body_tags(kind, body) {
            Some(tags) => Ok(tags),
            None => Err(ResolveError::MalformedResponse),
        }
    }
}

/// What a reply of a registry says about the latest tag.
pub open spec fn reply_latest(
    kind: RegistryKind,
    status: u16,
    retry_after: Option<u64>,
    body: Seq<char>,
    arch: Option<Seq<char>>,
) -> Result<Seq<char>, ResolveError> {
    match reply_tags(kind, status, retry_after, body) {
        Ok(tags) => latest_of(kind, tags, arch),
        Err(e) => Err(e),
    }
}

/// The delay that a `Retry-After` header advertises in seconds: a run of
/// decimal digits with a value that fits in 64 bits. Any other text, a date
/// among them, advertises none.
pub open spec fn retry_delay_of(header: Seq<char>) -> Option<u64> {
    if header.len() > 0 && all_digits(header) && digits_value(header) <= u64::MAX {
        Some(digits_value(header) as u64)
    } else {
        None
    }
}

/// Reads the delay in seconds from the text of a `Retry-After` header.
pub fn retry_delay(header: &str) -> (r: Option<u64>)
    ensures
        r == retry_delay_of(header@),
{
    let v = chars_of(header);
    assert(v@.subrange(0, v@.len() as int) =~= header@);
    parse_digits(&v, 0, v.len())
}

/// Reads the reply of a registry: status 429 is a rate limit and carries
/// the advertised delay, any other status outside 200..=299 is a transport
/// error, and a body of another shape is malformed.
pub fn read_reply(kind: RegistryKind, status: u16, retry_after: Option<u64>, body: &str) -> (r:
    Result<Vec<String>, ResolveError>)
    ensures
        match r {
            Ok(tags) => reply_tags(kind, status, retry_after, body@) == Ok::<
                Seq<Seq<char>>,
                ResolveError,
            >(texts_of(tags@)),
            Err(e) => reply_tags(kind, status, retry_after, body@) == Err::<
                Seq<Seq<char>>,
                ResolveError,
            >(e),
        },
{
    if status == 429 {
        Err(ResolveError::RateLimited { retry_after })
    } else if status < 200 || status > 299 {
        Err(ResolveError::TransportError)
    } else {
        decode_tags(kind, body)
    }
}

/// Chooses the latest tag under the policy of the registry kind.
pub fn resolve_latest(kind: RegistryKind, tags: &Vec<String>, arch: Option<&str>) -> (r: Result<
    String,
    ResolveError,
>)
    ensures
        match r {
            Ok(t) => latest_of(kind, texts_of(tags@), text_of(arch)) == Ok::<
                Seq<char>,
                ResolveError,
            >(t@),
            Err(e) => latest_of(kind, texts_of(tags@), text_of(arch)) == Err::<
                Seq<char>,
                ResolveError,
            >(e),
        },
{
    match kind {
        RegistryKind::DockerHub => latest_tag(tags, arch),
        RegistryKind::Ghcr => select_after_sentinel(tags),
    }
}

/// The latest tag that the reply of a registry announces.
pub fn latest_from_reply(
    kind: RegistryKind,
    status: u16,
    retry_after: Option<u64>,
    body: &str,
    arch: Option<&str>,
) -> (r: Result<String, ResolveError>)
    ensures
        match r {
            Ok(t) => reply_latest(kind, status, retry_after, body@, text_of(arch)) == Ok::<
                Seq<char>,
                ResolveError,
            >(t@),
            Err(e) => reply_latest(kind, status, retry_after, body@, text_of(arch)) == Err::<
                Seq<char>,
                ResolveError,
            >(e),
        },
{
    match read_reply(kind, status, retry_after, body) {
        Ok(tags) => resolve_latest(kind, &tags, arch),
        Err(e) => Err(e),
    }
}

} // verus!
