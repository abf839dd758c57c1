//! The inventory: the hosts to manage, and how each one is reached.

pub mod url_parts;

use vstd::prelude::*;
use crate::connector::Connector;
use crate::inventory::url_parts::{parse_url, url_parse, UrlError, UrlParts};
use crate::model::string_views;
use crate::text::{str_eq, string_of};

verus! {

/// A host: the addresses of its connectors, in order of preference, and its
/// tags, a table from keys to values in which a key occurs once.
#[derive(Debug, PartialEq, Eq)]
pub struct HostTemplate {
    connectors: Vec<String>,
    tags: Vec<(String, String)>,
}

/// All the hosts to manage.
#[derive(Debug, PartialEq, Eq)]
pub struct InventoryTemplate {
    pub hosts: Vec<HostTemplate>,
}

/// The tags of a host as pairs of character sequences.
pub open spec fn tag_views(tags: Seq<(String, String)>) -> Seq<(Seq<char>, Seq<char>)> {
    tags.map_values(|t: (String, String)| (t.0@, t.1@))
}

/// No key occurs twice.
pub open spec fn keys_distinct(tags: Seq<(Seq<char>, Seq<char>)>) -> bool {
    forall|i: int, j: int| 0 <= i < j < tags.len() ==> #[trigger] tags[i].0 != #[trigger] tags[j].0
}

/// The first index from `j` on whose key is `key`, or -1.
pub open spec fn find_key_from(tags: Seq<(Seq<char>, Seq<char>)>, key: Seq<char>, j: int) -> int
    decreases tags.len() - j,
{
    if j < 0 || j >= tags.len() {
        -1
    } else if tags[j].0 == key {
        j
    } else {
        find_key_from(tags, key, j + 1)
    }
}

/// The index of `key` in the table, or -1.
pub open spec fn find_key(tags: Seq<(Seq<char>, Seq<char>)>, key: Seq<char>) -> int {
    find_key_from(tags, key, 0)
}

proof fn lemma_find_key_from(tags: Seq<(Seq<char>, Seq<char>)>, key: Seq<char>, j: int)
    requires
        0 <= j <= tags.len(),
    ensures
        find_key_from(tags, key, j) == -1 || (j <= find_key_from(tags, key, j) < tags.len()
            && tags[find_key_from(tags, key, j)].0 == key),
        find_key_from(tags, key, j) == -1 ==> forall|k: int|
            j <= k < tags.len() ==> #[trigger] tags[k].0 != key,
    decreases tags.len() - j,
{
    if j < tags.len() && tags[j].0 != key {
        lemma_find_key_from(tags, key, j + 1);
    }
}

impl HostTemplate {
    #[verifier::type_invariant]
    spec fn tags_well_formed(self) -> bool {
        keys_distinct(tag_views(self.tags@))
    }

    /// The connectors' addresses.
    pub closed spec fn spec_connectors(&self) -> Seq<Seq<char>> {
        string_views(self.connectors@)
    }

    /// The tags, as (key, value) pairs.
    pub closed spec fn spec_tags(&self) -> Seq<(Seq<char>, Seq<char>)> {
        tag_views(self.tags@)
    }

    /// A host with the given connectors and no tags.
    pub fn new(connectors: Vec<String>) -> (h: HostTemplate)
        ensures
            h.spec_connectors() == string_views(connectors@),
            h.spec_tags() == Seq::<(Seq<char>, Seq<char>)>::empty(),
    {
        let tags: Vec<(String, String)> = Vec::new();
        assert(tag_views(tags@) =~= Seq::<(Seq<char>, Seq<char>)>::empty());
        assert(keys_distinct(tag_views(tags@)));
        HostTemplate { connectors, tags }
    }

    /// The connectors' addresses, in order of preference.
    pub fn connectors(&self) -> (c: &Vec<String>)
        ensures
            string_views(c@) == self.spec_connectors(),
    {
        &self.connectors
    }

    /// The tags; no key occurs twice.
    pub fn tags(&self) -> (t: &Vec<(String, String)>)
        ensures
            tag_views(t@) == self.spec_tags(),
            keys_distinct(self.spec_tags()),
    {
        proof {
            use_type_invariant(self);
        }
        &self.tags
    }

    /// Sets the tag `key` to `value`, as a map's insert does: a tag with
    /// that key gets the new value in its place, and the old value is
    /// returned; otherwise the tag is added at the end.
    pub fn insert_tag(&mut self, key: String, value: String) -> (previous: Option<String>)
        ensures
            final(self).spec_connectors() == old(self).spec_connectors(),
            ({
                let i = find_key(old(self).spec_tags(), key@);
                if i >= 0 {
                    &&& final(self).spec_tags() == old(self).spec_tags().update(i, (key@, value@))
                    &&& previous matches Some(p) && p@ == old(self).spec_tags()[i].1
                } else {
                    &&& final(self).spec_tags() == old(self).spec_tags().push((key@, value@))
                    &&& previous is None
                }
            }),
    {
        proof {
            use_type_invariant(&*self);
        }
        let mut tags: Vec<(String, String)> = Vec::new();
        assert(tag_views(tags@) =~= Seq::<(Seq<char>, Seq<char>)>::empty());
        std::mem::swap(&mut tags, &mut self.tags);
        let ghost tv = tag_views(tags@);
        assert(tv == old(self).spec_tags());
        let n = tags.len();
        let mut j: usize = 0;
        proof {
            lemma_find_key_from(tv, key@, 0);
        }
        while j < n
            invariant
                n == tags@.len(),
                tv == tag_views(tags@),
                tv == old(self).spec_tags(),
                keys_distinct(tv),
                self.connectors == old(self).connectors,
                j <= n,
                find_key(tv, key@) == find_key_from(tv, key@, j as int),
            decreases n - j,
        {
            assert(tv[j as int].0 == tags@[j as int].0@);
            if crate::text::str_eq(tags[j].0.as_str(), key.as_str()) {
                let old_value = tags[j].1.clone();
                let ghost kv = key@;
                tags.set(j, (key, value));
                assert(tag_views(tags@) =~= tv.update(j as int, (kv, value@)));
                assert(keys_distinct(tag_views(tags@))) by {
                    assert forall|a: int, b: int|
                        0 <= a < b < tag_views(tags@).len() implies #[trigger] tag_views(tags@)[a].0
                        != #[trigger] tag_views(tags@)[b].0 by {
                        assert(tv[a].0 != tv[b].0);
                    }
                }
                self.tags = tags;
                return Some(old_value);
            }
            j = j + 1;
        }
        proof {
            lemma_find_key_from(tv, key@, n as int);
            lemma_find_key_from(tv, key@, 0);
        }
        tags.push((key, value));
        assert(tag_views(tags@) =~= tv.push((key@, value@)));
        assert forall|i: int| 0 <= i < tv.len() implies #[trigger] tv[i].0 != key@ by {
            lemma_find_key_from(tv, key@, 0);
        }
        self.tags = tags;
        None
    }
}

/// Why no connector could be picked for a host.
#[derive(Debug, Clone, PartialEq, Eq)]
pub enum InventoryError {
    /// The host lists no connector.
    NoConnectors,
    /// The first connector's address is not a URL; the URL reader's error.
    InvalidUrl(UrlError),
    /// A `docker-test` address without a host; its serialization.
    NoHost { url: String },
    /// A `docker-test` address with a host and an empty path, which names
    /// no image tag; its serialization.
    EmptyPath { url: String },
    /// An address of a scheme that no connector serves; the scheme.
    BadScheme { scheme: String },
}

/// The address that the inventory lists for its one host.
pub open spec fn default_connector() -> Seq<char> {
    "docker-test://ubuntu/18.04"@
}

/// The inventory: one host, reached by a throwaway `ubuntu:18.04`
/// container, tagged `name = potato`.
pub fn load() -> (res: Result<InventoryTemplate, InventoryError>)
    ensures
        res matches Ok(inv) && inv.hosts@.len() == 1 && inv.hosts@[0].spec_connectors() == seq![
            default_connector(),
        ] && inv.hosts@[0].spec_tags() == seq![("name"@, "potato"@)],
{
    let mut connectors: Vec<String> = Vec::new();
    connectors.push(string_of("docker-test://ubuntu/18.04"));
    assert(string_views(connectors@) =~= seq![default_connector()]);
    let mut host = HostTemplate::new(connectors);
    host.insert_tag(string_of("name"), string_of("potato"));
    assert(host.spec_tags() =~= seq![("name"@, "potato"@)]);
    let mut hosts: Vec<HostTemplate> = Vec::new();
    hosts.push(host);
    Ok(InventoryTemplate { hosts })
}

/// The image of a `docker-test` address: the host, a colon, and the path
/// without its leading character.
pub open spec fn image_of(host: Seq<char>, path: Seq<char>) -> Seq<char> {
    host + ":"@ + path.drop_first()
}

/// Where a read address leads: its scheme, host, path and serialization.
pub open spec fn connector_outcome(
    scheme: Seq<char>,
    host: Option<Seq<char>>,
    path: Seq<char>,
    serialization: Seq<char>,
    res: Result<Connector, InventoryError>,
) -> bool {
    if scheme != "docker-test"@ {
        res matches Err(InventoryError::BadScheme { scheme: s }) && s@ == scheme
    } else {
        match host {
            None => res matches Err(InventoryError::NoHost { url }) && url@ == serialization,
            Some(h) => res matches Ok(Connector::DockerTest { base_image }) && base_image@
                == image_of(h, path),
        }
    }
}

/// Only `docker-test` addresses give a connector: any other scheme is
/// refused as `BadScheme` with that scheme. A `docker-test` address without
/// a host is refused as `NoHost`; with a host `h` and a path `p` it gives the
/// image `h:q`, where `q` is `p` without its leading `/`.
pub proof fn lemma_connector_outcome(
    scheme: Seq<char>,
    host: Option<Seq<char>>,
    path: Seq<char>,
    serialization: Seq<char>,
    res: Result<Connector, InventoryError>,
)
    requires
        connector_outcome(scheme, host, path, serialization, res),
    ensures
        scheme != "docker-test"@ ==> (res matches Err(InventoryError::BadScheme { scheme: s })
            && s@ == scheme),
        res is Ok ==> scheme == "docker-test"@ && host is Some,
        scheme == "docker-test"@ && host is None ==> (res matches Err(
            InventoryError::NoHost { url },
        ) && url@ == serialization),
        scheme == "docker-test"@ && host is Some ==> (res matches Ok(
            Connector::DockerTest { base_image },
        ) && base_image@ == host->Some_0 + seq![':'] + path.subrange(1, path.len() as int)),
{
    reveal_strlit(":");
}

/// A host's first address decides: an address the reader refuses gives
/// its error, one of another scheme than `docker-test` gives `BadScheme`,
/// and a connector comes only from a `docker-test` address with a host and
/// a path.
pub proof fn lemma_picked(connectors: Seq<Seq<char>>, res: Result<Connector, InventoryError>)
    requires
        picked(connectors, res),
        connectors.len() >= 1,
    ensures
        url_parse(connectors[0]) matches Err(e) ==> res == Err::<Connector, InventoryError>(
            InventoryError::InvalidUrl(e),
        ),
        url_parse(connectors[0]) is Ok && url_parse(connectors[0])->Ok_0.0 != "docker-test"@ ==> (
        res matches Err(InventoryError::BadScheme { scheme: s }) && s@ == url_parse(
            connectors[0],
        )->Ok_0.0),
        res matches Ok(Connector::DockerTest { base_image }) ==> ({
            let r = url_parse(connectors[0]);
            &&& r is Ok
            &&& r->Ok_0.0 == "docker-test"@
            &&& r->Ok_0.1 is Some
            &&& r->Ok_0.2.len() >= 1
            &&& base_image@ == r->Ok_0.1->Some_0 + seq![':'] + r->Ok_0.2.subrange(
                1,
                r->Ok_0.2.len() as int,
            )
        }),
{
    reveal_strlit(":");
}

/// The connector for a read address. A `docker-test` address with a host
/// must have a non-empty ASCII path.
pub fn connector_for_url(url: &UrlParts) -> (res: Result<Connector, InventoryError>)
    requires
        url.scheme@ == "docker-test"@ && url.host is Some ==> url.path@.len() >= 1
            && vstd::utf8::is_ascii_chars(url.path@),
    ensures
        connector_outcome(
            url.scheme@,
            url_parts::option_view(url.host),
            url.path@,
            url.serialization@,
            res,
        ),
{
    if !str_eq(url.scheme.as_str(), "docker-test") {
        let mut scheme = String::new();
        scheme.append(url.scheme.as_str());
        return Err(InventoryError::BadScheme { scheme });
    }
    match &url.host {
        None => {
            let mut s = String::new();
            s.append(url.serialization.as_str());
            Err(InventoryError::NoHost { url: s })
        },
        Some(h) => {
            let path = url.path.as_str();
            let n = path.unicode_len();
            let tail = path.substring_ascii(1, n);
            let mut base_image = String::new();
            base_image.append(h.as_str());
            base_image.append(":");
            base_image.append(tail);
            assert(tail@ =~= url.path@.drop_first());
            assert(base_image@ =~= image_of(h@, url.path@));
            Ok(Connector::DockerTest { base_image })
        },
    }
}

/// What picking a connector for a host with the addresses `connectors`
/// gives: only the first address counts.
pub open spec fn picked(connectors: Seq<Seq<char>>, res: Result<Connector, InventoryError>) -> bool {
    if connectors.len() == 0 {
        res == Err::<Connector, InventoryError>(InventoryError::NoConnectors)
    } else {
        match url_parse(connectors[0]) {
            Err(e) => res == Err::<Connector, InventoryError>(InventoryError::InvalidUrl(e)),
            Ok((scheme, h, path, serialization)) => if scheme == "docker-test"@ && h is Some
                && path.len() == 0 {
                res matches Err(InventoryError::EmptyPath { url }) && url@ == serialization
            } else {
                connector_outcome(scheme, h, path, serialization, res)
            },
        }
    }
}

/// Two outcomes of picking are the same: the same connector with the same
/// image, or the same error with the same text.
pub open spec fn same_outcome(
    r1: Result<Connector, InventoryError>,
    r2: Result<Connector, InventoryError>,
) -> bool {
    match (r1, r2) {
        (Ok(Connector::DockerTest { base_image: a }), Ok(Connector::DockerTest { base_image: b })) =>
            a@ == b@,
        (Err(InventoryError::NoConnectors), Err(InventoryError::NoConnectors)) => true,
        (Err(InventoryError::InvalidUrl(a)), Err(InventoryError::InvalidUrl(b))) => a == b,
        (Err(InventoryError::NoHost { url: a }), Err(InventoryError::NoHost { url: b })) => a@
            == b@,
        (Err(InventoryError::EmptyPath { url: a }), Err(InventoryError::EmptyPath { url: b })) =>
            a@ == b@,
        (Err(InventoryError::BadScheme { scheme: a }), Err(InventoryError::BadScheme { scheme: b }))
            => a@ == b@,
        _ => false,
    }
}

/// Hosts whose first addresses are the same get the same connector, or the
/// same error: the other addresses and the tags play no part.
pub proof fn lemma_pick_depends_on_first_address(
    c1: Seq<Seq<char>>,
    c2: Seq<Seq<char>>,
    r1: Result<Connector, InventoryError>,
    r2: Result<Connector, InventoryError>,
)
    requires
        c1.len() >= 1,
        c2.len() >= 1,
        c1[0] == c2[0],
        picked(c1, r1),
        picked(c2, r2),
    ensures
        same_outcome(r1, r2),
{
}

/// Picks the connector of a host from its first address. A `docker-test`
/// address whose host is followed by an empty path is refused as
/// `EmptyPath`: it names no image tag.
pub fn pick_connector(host: &HostTemplate) -> (res: Result<Connector, InventoryError>)
    ensures
        picked(host.spec_connectors(), res),
{
    if host.connectors.len() == 0 {
        return Err(InventoryError::NoConnectors);
    }
    assert(string_views(host.connectors@)[0] == host.connectors@[0]@);
    let a_url = &host.connectors[0];
    let url = match parse_url(a_url.as_str()) {
        Ok(u) => u,
        Err(e) => {
            return Err(InventoryError::InvalidUrl(e));
        },
    };
    if str_eq(url.scheme.as_str(), "docker-test") && url.host.is_some()
        && url.path.as_str().unicode_len() == 0 {
        let mut s = String::new();
        s.append(url.serialization.as_str());
        return Err(InventoryError::EmptyPath { url: s });
    }
    connector_for_url(&url)
}

} // verus!
