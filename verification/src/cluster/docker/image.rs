//! Image references, registry manifests and registry authentication.

use vstd::prelude::*;
use crate::number::{
    decimal, digit, law_decimal_reads_back, lemma_decimal, number_upto, parse_upto,
};
use crate::text::{
    begins, chars_of, contains_char, ends, has_sub, index_of, is_white, join, joined, last_index_of,
    law_replacing_goes_left_to_right, lemma_index_of, lemma_index_of_is, lemma_last_index_of, lemma_pieces_head,
    lemma_pieces_single, occurs_at, opt_view, pieces, replace, replaced, rfind_char, same,
    split, string_of_range, strip_prefix, trim, trimmed, views, white,
};
use crate::textmap::{keyed, law_put_then_lookup, lookup, put, TextMap};

verus! {

// ---------------------------------------------------------------------------
// Image references
// ---------------------------------------------------------------------------

/// A parsed image reference.
#[derive(Debug, Clone)]
pub struct ImageRef {
    pub registry: String,
    pub repository: String,
    pub tag: String,
}

/// The name of an image and its tag or digest. What follows the last `@` is a digest. What
/// follows the last `:` is a tag, unless the colon separates a registry from its port.
pub open spec fn name_and_tag(image: Seq<char>) -> (Seq<char>, Seq<char>) {
    let at = last_index_of(image, '@');
    let colon = last_index_of(image, ':');
    if at >= 0 {
        (image.take(at), image.skip(at + 1))
    } else if colon >= 0 {
        let name = image.take(colon);
        let tag = image.skip(colon + 1);
        if !name.contains('/') && tag.contains('/') && number_upto(pieces(tag, '/')[0], 65535) is Some {
            (image, "latest"@)
        } else {
            (name, tag)
        }
    } else {
        (image, "latest"@)
    }
}

/// The registry and the repository of an image name: names without a registry are those of
/// Docker Hub.
pub open spec fn registry_and_repository(name: Seq<char>) -> (Seq<char>, Seq<char>) {
    let parts = pieces(name, '/');
    if parts.len() == 1 {
        ("registry-1.docker.io"@, "library/"@ + parts[0])
    } else if parts.len() == 2 && !parts[0].contains('.') && !parts[0].contains(':') {
        ("registry-1.docker.io"@, parts[0] + "/"@ + parts[1])
    } else {
        (parts[0], joined(parts.skip(1), "/"@))
    }
}

/// The strings from index 1 on.
fn tail(v: &Vec<String>) -> (r: Vec<String>)
    requires
        v@.len() >= 1,
    ensures
        views(r@) == views(v@).skip(1),
{
    let mut out: Vec<String> = Vec::new();
    let mut i: usize = 1;
    while i < v.len()
        invariant
            1 <= i <= v@.len(),
            views(out@) =~= views(v@).subrange(1, i as int),
        decreases v@.len() - i,
    {
        let ghost before = views(out@);
        proof {
            crate::text::lemma_views_push(out@, v@[i as int]);
        }
        out.push(v[i].clone());
        i = i + 1;
        assert(views(v@).subrange(1, i as int) =~= views(v@).subrange(1, i - 1).push(v@[i - 1]@));
    }
    assert(views(v@).subrange(1, i as int) =~= views(v@).skip(1));
    out
}

impl ImageRef {
    /// Reads an image reference such as `nginx:1.25` or `docker.io/library/nginx:1.25`.
    pub fn parse(image: &str) -> (r: Self)
        ensures
            r.registry@ == registry_and_repository(name_and_tag(image@).0).0,
            r.repository@ == registry_and_repository(name_and_tag(image@).0).1,
            r.tag@ == name_and_tag(image@).1,
    {
        let v = chars_of(image);
        let n: usize = v.len();
        proof {
            lemma_last_index_of(v@, '@');
            lemma_last_index_of(v@, ':');
        }
        let (name, tag) = match rfind_char(&v, '@') {
            Some(at) => {
                assert(v@.subrange(0, at as int) =~= v@.take(at as int));
                assert(v@.subrange(at + 1, v@.len() as int) =~= v@.skip(at + 1));
                (string_of_range(&v, 0, at), string_of_range(&v, at + 1, n))
            },
            None => match rfind_char(&v, ':') {
                Some(colon) => {
                    assert(v@.subrange(0, colon as int) =~= v@.take(colon as int));
                    assert(v@.subrange(colon + 1, v@.len() as int) =~= v@.skip(colon + 1));
                    let name = string_of_range(&v, 0, colon);
                    let tag = string_of_range(&v, colon + 1, n);
                    let mut is_port = false;
                    if !contains_char(name.as_str(), '/') && contains_char(tag.as_str(), '/') {
                        let ps = split(tag.as_str(), '/');
                        assert(views(ps@)[0] == ps@[0]@);
                        is_port = parse_upto(ps[0].as_str(), 65535).is_some();
                    }
                    if is_port {
                        (image.to_owned(), "latest".to_owned())
                    } else {
                        (name, tag)
                    }
                },
                None => (image.to_owned(), "latest".to_owned()),
            },
        };
        let parts = split(name.as_str(), '/');
        let ghost all = pieces(name@, '/');
        assert(all.len() == parts@.len());
        assert(all[0] == parts@[0]@);
        if parts.len() == 1 {
            let mut repository = "library/".to_owned();
            repository.append(parts[0].as_str());
            return ImageRef { registry: "registry-1.docker.io".to_owned(), repository, tag };
        }
        if parts.len() == 2 && !contains_char(parts[0].as_str(), '.') && !contains_char(
            parts[0].as_str(),
            ':',
        ) {
            assert(all[1] == parts@[1]@);
            let mut repository = parts[0].clone();
            repository.append("/");
            repository.append(parts[1].as_str());
            return ImageRef { registry: "registry-1.docker.io".to_owned(), repository, tag };
        }
        let rest = tail(&parts);
        ImageRef { registry: parts[0].clone(), repository: join(&rest, "/"), tag }
    }

    /// The key under which the image's manifest is cached.
    pub fn cache_key(&self) -> (r: String)
        ensures
            r@ == self.registry@ + "/"@ + self.repository@ + "/"@ + self.tag@,
    {
        let mut s = self.registry.clone();
        s.append("/");
        s.append(self.repository.as_str());
        s.append("/");
        s.append(self.tag.as_str());
        s
    }

    /// The name under which Docker pulls the image: without the registry for Docker Hub.
    pub fn pull_name(&self) -> (r: String)
        ensures
            r@ == if crate::text::has_sub(self.registry@, "docker.io"@) {
                self.repository@
            } else {
                self.registry@ + "/"@ + self.repository@
            },
    {
        if crate::text::contains(self.registry.as_str(), "docker.io") {
            self.repository.clone()
        } else {
            let mut s = self.registry.clone();
            s.append("/");
            s.append(self.repository.as_str());
            s
        }
    }

    /// The address of the manifest with a tag or digest.
    pub fn manifest_url(&self, reference: &str) -> (r: String)
        ensures
            r@ == "https://"@ + self.registry@ + "/v2/"@ + self.repository@ + "/manifests/"@
                + reference@,
    {
        let mut s = "https://".to_owned();
        s.append(self.registry.as_str());
        s.append("/v2/");
        s.append(self.repository.as_str());
        s.append("/manifests/");
        s.append(reference);
        s
    }
}

/// The pieces of an image reference hold every character of it that is not a separator: where no
/// digest, tag or registry is given, the repository ends with the whole reference.
pub proof fn law_plain_names_are_library_images(image: Seq<char>)
    requires
        !image.contains('@'),
        !image.contains(':'),
        !image.contains('/'),
    ensures
        name_and_tag(image) == (image, "latest"@),
        registry_and_repository(image) == ("registry-1.docker.io"@, "library/"@ + image),
{
    lemma_last_index_of(image, '@');
    lemma_last_index_of(image, ':');
    crate::text::lemma_pieces_single(image, '/');
}

/// A digest is taken as it stands, whatever it holds.
pub proof fn law_digest_is_kept(name: Seq<char>, digest: Seq<char>)
    requires
        !digest.contains('@'),
    ensures
        name_and_tag(name.push('@') + digest) == (name, digest),
{
    let image = name.push('@') + digest;
    lemma_last_index_of(image, '@');
    let k = last_index_of(image, '@');
    assert(image[name.len() as int] == '@');
    if k > name.len() {
        assert(digest[k - name.len() - 1] == '@');
    }
    assert(k == name.len());
    assert(image.take(k) =~= name);
    assert(image.skip(k + 1) =~= digest);
}

// ---------------------------------------------------------------------------
// Manifests
// ---------------------------------------------------------------------------

/// What the registry says of an image: layers of one platform, or a list of platforms.
#[derive(Debug)]
pub struct ManifestV2 {
    pub media_type: Option<String>,
    pub layers: Option<Vec<ManifestLayer>>,
    pub manifests: Option<Vec<ManifestListEntry>>,
}

/// A layer of an image.
#[derive(Debug)]
pub struct ManifestLayer {
    pub size: Option<u64>,
    pub digest: Option<String>,
}

/// One platform of an image.
#[derive(Debug)]
pub struct ManifestListEntry {
    pub digest: Option<String>,
    pub platform: Option<ManifestPlatform>,
}

/// Architecture and operating system of a platform.
#[derive(Debug)]
pub struct ManifestPlatform {
    pub architecture: Option<String>,
    pub os: Option<String>,
}

/// The size of an image, and of its layers by the first twelve characters of their digests.
#[derive(Debug)]
pub struct ManifestInfo {
    pub total_bytes: u64,
    pub layer_sizes: TextMap<u64>,
}

/// The first twelve characters of a digest's hash.
pub open spec fn prefix_of_digest(digest: Seq<char>) -> Seq<char> {
    let hash = if begins(digest, "sha256:"@) {
        digest.skip("sha256:"@.len() as int)
    } else {
        digest
    };
    if hash.len() > 12 {
        hash.take(12)
    } else {
        hash
    }
}

/// The first twelve characters of a digest's hash: Docker names layers by them.
pub fn digest_prefix(digest: &str) -> (r: String)
    ensures
        r@ == prefix_of_digest(digest@),
{
    let hash = match strip_prefix(digest, "sha256:") {
        Some(h) => h,
        None => digest.to_owned(),
    };
    let v = chars_of(hash.as_str());
    if v.len() > 12 {
        assert(v@.subrange(0, 12) =~= v@.take(12));
        string_of_range(&v, 0, 12)
    } else {
        hash
    }
}

/// The size that a layer gives, or zero.
pub open spec fn layer_size(l: ManifestLayer) -> nat {
    match l.size {
        Some(n) => n as nat,
        None => 0,
    }
}

/// The sum of the layers' sizes.
pub open spec fn layers_size(layers: Seq<ManifestLayer>) -> nat
    decreases layers.len(),
{
    if layers.len() == 0 {
        0
    } else {
        layers_size(layers.drop_last()) + layer_size(layers.last())
    }
}

/// The sizes of the layers by their digests; a later layer replaces an earlier one.
pub open spec fn sizes_by_digest(layers: Seq<ManifestLayer>) -> Seq<(Seq<char>, u64)>
    decreases layers.len(),
{
    if layers.len() == 0 {
        Seq::empty()
    } else {
        let rest = sizes_by_digest(layers.drop_last());
        match layers.last().digest {
            Some(d) => put(rest, prefix_of_digest(d@), layer_size(layers.last()) as u64),
            None => rest,
        }
    }
}

/// A number that does not exceed 64 bits.
pub open spec fn capped(n: nat) -> u64 {
    if n > u64::MAX {
        u64::MAX
    } else {
        n as u64
    }
}

/// Size and layers of a manifest for one platform; nothing where it has no layers or their sizes
/// are all zero. A sum beyond 64 bits is capped.
pub fn extract_manifest_info(manifest: &ManifestV2) -> (r: Option<ManifestInfo>)
    ensures
        match manifest.layers {
            None => r is None,
            Some(layers) => {
                &&& r is Some <==> layers_size(layers@) > 0
                &&& r matches Some(info) ==> {
                    &&& info.total_bytes == capped(layers_size(layers@))
                    &&& info.layer_sizes@ == sizes_by_digest(layers@)
                    &&& keyed(info.layer_sizes@)
                }
            },
        },
{
    match &manifest.layers {
        None => None,
        Some(layers) => {
            let mut total: u64 = 0;
            let mut sizes: TextMap<u64> = TextMap::new();
            let mut i: usize = 0;
            while i < layers.len()
                invariant
                    i <= layers@.len(),
                    total == capped(layers_size(layers@.take(i as int))),
                    sizes@ == sizes_by_digest(layers@.take(i as int)),
                    keyed(sizes@),
                decreases layers@.len() - i,
            {
                assert(layers@.take(i + 1).drop_last() =~= layers@.take(i as int));
                let size: u64 = match layers[i].size {
                    Some(n) => n,
                    None => 0,
                };
                total = total.saturating_add(size);
                if let Some(d) = &layers[i].digest {
                    sizes.insert(digest_prefix(d.as_str()), size);
                }
                i = i + 1;
            }
            assert(layers@.take(i as int) =~= layers@);
            if total == 0 {
                None
            } else {
                Some(ManifestInfo { total_bytes: total, layer_sizes: sizes })
            }
        },
    }
}

/// Whether a platform is Linux on the given architecture.
pub open spec fn runs_on(e: ManifestListEntry, arch: Seq<char>) -> bool {
    match e.platform {
        Some(p) => opt_view(p.architecture) == Some(arch) && opt_view(p.os) == Some("linux"@),
        None => false,
    }
}

/// The digest of the first platform that fits.
pub open spec fn digest_for(list: Seq<ManifestListEntry>, arch: Seq<char>) -> Option<Seq<char>>
    decreases list.len(),
{
    if list.len() == 0 {
        None
    } else if runs_on(list[0], arch) {
        opt_view(list[0].digest)
    } else {
        digest_for(list.skip(1), arch)
    }
}

/// The digest of the first platform of a list that is Linux on the given architecture.
pub fn select_platform(list: &Vec<ManifestListEntry>, arch: &str) -> (r: Option<String>)
    ensures
        opt_view(r) == digest_for(list@, arch@),
{
    let mut i: usize = 0;
    assert(list@.skip(0) =~= list@);
    while i < list.len()
        invariant
            i <= list@.len(),
            digest_for(list@, arch@) == digest_for(list@.skip(i as int), arch@),
        decreases list@.len() - i,
    {
        assert(list@.skip(i as int)[0] == list@[i as int]);
        assert(list@.skip(i as int).skip(1) =~= list@.skip(i + 1));
        if let Some(p) = &list[i].platform {
            if crate::text::opt_is(&p.architecture, arch) && crate::text::opt_is(&p.os, "linux") {
                return crate::text::opt_clone(&list[i].digest);
            }
        }
        i = i + 1;
    }
    None
}

/// What a manifest leads to.
#[derive(Debug)]
pub enum ManifestStep {
    /// It is known.
    Known(ManifestInfo),
    /// Fetch the manifest with this digest.
    Fetch(String),
    /// There is none for this machine.
    Unknown,
}

/// What a manifest leads to: a list is resolved for the architecture first.
pub fn resolve_manifest(manifest: &ManifestV2, arch: &str) -> (r: ManifestStep)
    ensures
        r is Fetch ==> manifest.manifests is Some,
        r matches ManifestStep::Known(info) ==> manifest.manifests is None && manifest.layers is Some
            && info.total_bytes > 0,
        match manifest.manifests {
            Some(list) => match digest_for(list@, arch@) {
                Some(d) => r matches ManifestStep::Fetch(s) && s@ == d,
                None => r is Unknown,
            },
            None => match manifest.layers {
                Some(layers) => if layers_size(layers@) > 0 {
                    &&& r matches ManifestStep::Known(info)
                    &&& info.total_bytes == capped(layers_size(layers@))
                    &&& info.layer_sizes@ == sizes_by_digest(layers@)
                    &&& keyed(info.layer_sizes@)
                } else {
                    r is Unknown
                },
                None => r is Unknown,
            },
        },
{
    match &manifest.manifests {
        Some(list) => match select_platform(list, arch) {
            Some(d) => ManifestStep::Fetch(d),
            None => ManifestStep::Unknown,
        },
        None => match extract_manifest_info(manifest) {
            Some(info) => ManifestStep::Known(info),
            None => ManifestStep::Unknown,
        },
    }
}

/// The name that registries give to the architecture of this machine.
pub fn target_architecture(aarch64: bool) -> (r: &'static str)
    ensures
        r@ == if aarch64 {
            "arm64"@
        } else {
            "amd64"@
        },
{
    if aarch64 {
        "arm64"
    } else {
        "amd64"
    }
}

/// What the status of a registry's answer leads to.
#[derive(Debug, Clone, Copy, PartialEq, Eq, Structural)]
pub enum RegistryStep {
    ReadBody,
    Authenticate,
    GiveUp,
}

/// What the status of a registry's answer leads to: 401 asks for a token, unless one was sent.
pub fn registry_step(status: u16, authenticated: bool) -> (r: RegistryStep)
    ensures
        r is ReadBody <==> status / 100 == 2,
        r is Authenticate <==> status == 401 && !authenticated,
        r == if !authenticated && status == 401 {
            RegistryStep::Authenticate
        } else if 200 <= status <= 299 {
            RegistryStep::ReadBody
        } else {
            RegistryStep::GiveUp
        },
{
    if !authenticated && status == 401 {
        RegistryStep::Authenticate
    } else if 200 <= status && status <= 299 {
        RegistryStep::ReadBody
    } else {
        RegistryStep::GiveUp
    }
}

/// Whether a manifest that was fetched so long ago may still be used: for ten minutes.
pub fn cache_is_fresh(age_nanos: u128) -> (r: bool)
    ensures
        r == (age_nanos < 600 * 1_000_000_000),
{
    age_nanos < 600 * 1_000_000_000
}

// ---------------------------------------------------------------------------
// Registry authentication
// ---------------------------------------------------------------------------

/// Whether a character separates parameters.
pub open spec fn separates(c: char) -> bool {
    c == ',' || white(c)
}

/// `s` without the separators at its start.
pub open spec fn unseparated(s: Seq<char>) -> Seq<char>
    decreases s.len(),
{
    if s.len() > 0 && separates(s[0]) {
        unseparated(s.skip(1))
    } else {
        s
    }
}

/// The index at which a quoted text ends: the first quote without a backslash before it, or the
/// length.
pub open spec fn quote_end(s: Seq<char>, from: int) -> int
    decreases s.len() - from,
{
    if from < 0 || from >= s.len() {
        s.len() as int
    } else if s[from] == '"' && (from == 0 || s[from - 1] != '\\') {
        from
    } else {
        quote_end(s, from + 1)
    }
}

/// The index of the first separator at or after `from`, or the length.
pub open spec fn separator_at(s: Seq<char>, from: int) -> int
    decreases s.len() - from,
{
    if from < 0 || from >= s.len() {
        s.len() as int
    } else if separates(s[from]) {
        from
    } else {
        separator_at(s, from + 1)
    }
}

/// The value at the start of `s`, which may be quoted, and what follows it.
pub open spec fn value_and_rest(s: Seq<char>) -> (Seq<char>, Seq<char>) {
    if s.len() > 0 && s[0] == '"' {
        let body = s.skip(1);
        let end = quote_end(body, 0);
        (
            replaced(body.take(end), "\\\""@, "\""@),
            if end < body.len() {
                body.skip(end + 1)
            } else {
                Seq::empty()
            },
        )
    } else {
        let end = separator_at(s, 0);
        (s.take(end), s.skip(end))
    }
}

/// The parameters `key=value` of an authentication challenge.
pub open spec fn challenge_params(s: Seq<char>) -> Seq<(Seq<char>, Seq<char>)>
    decreases s.len(),
    via challenge_params_decreases
{
    let t = unseparated(s);
    let eq = index_of(t, '=');
    if eq >= t.len() {
        Seq::empty()
    } else {
        let v = value_and_rest(t.skip(eq + 1));
        seq![(trimmed(t.take(eq)), v.0)] + challenge_params(v.1)
    }
}

#[via_fn]
proof fn challenge_params_decreases(s: Seq<char>) {
    lemma_unseparated(s);
    let t = unseparated(s);
    lemma_index_of(t, '=');
    let eq = index_of(t, '=');
    if eq < t.len() {
        lemma_rest_shorter(t.skip(eq + 1));
    }
}

proof fn lemma_unseparated(s: Seq<char>)
    ensures
        unseparated(s).len() <= s.len(),
    decreases s.len(),
{
    if s.len() > 0 && separates(s[0]) {
        lemma_unseparated(s.skip(1));
    }
}

proof fn lemma_quote_end(s: Seq<char>, from: int)
    requires
        0 <= from <= s.len(),
    ensures
        from <= quote_end(s, from) <= s.len(),
    decreases s.len() - from,
{
    if from < s.len() && !(s[from] == '"' && (from == 0 || s[from - 1] != '\\')) {
        lemma_quote_end(s, from + 1);
    }
}

proof fn lemma_separator_at(s: Seq<char>, from: int)
    requires
        0 <= from <= s.len(),
    ensures
        from <= separator_at(s, from) <= s.len(),
    decreases s.len() - from,
{
    if from < s.len() && !separates(s[from]) {
        lemma_separator_at(s, from + 1);
    }
}

proof fn lemma_rest_shorter(s: Seq<char>)
    ensures
        value_and_rest(s).1.len() <= s.len(),
{
    lemma_separator_at(s, 0);
    if s.len() > 0 {
        lemma_quote_end(s.skip(1), 0);
    }
}

/// The texts of a list of pairs.
pub open spec fn pair_views(v: Seq<(String, String)>) -> Seq<(Seq<char>, Seq<char>)> {
    Seq::new(v.len(), |i: int| (v[i].0@, v[i].1@))
}

/// The value that begins at index `at`, and the index at which the rest begins.
fn take_value(v: &Vec<char>, at: usize) -> (r: (String, usize))
    requires
        at <= v@.len(),
    ensures
        at <= r.1 <= v@.len(),
        r.0@ == value_and_rest(v@.skip(at as int)).0,
        v@.skip(r.1 as int) == value_and_rest(v@.skip(at as int)).1,
{
    let n: usize = v.len();
    let ghost rest = v@.skip(at as int);
    if at < n && v[at] == '"' {
        assert(rest[0] == v@[at as int]);
        let b: usize = at + 1;
        let ghost body = rest.skip(1);
        assert(body =~= v@.skip(b as int));
        let mut end: usize = b;
        while end < n && !(v[end] == '"' && (end == b || v[end - 1] != '\\'))
            invariant
                n == v@.len(),
                b <= end <= n,
                body == v@.skip(b as int),
                quote_end(body, 0) == quote_end(body, end - b),
            decreases n - end,
        {
            assert(body[end - b] == v@[end as int]);
            assert(end > b ==> body[end - b - 1] == v@[end - 1]);
            end = end + 1;
        }
        assert(end < n ==> body[end - b] == v@[end as int]);
        assert(end < n && end > b ==> body[end - b - 1] == v@[end - 1]);
        assert(quote_end(body, 0) == end - b);
        assert(v@.subrange(b as int, end as int) =~= body.take(end - b));
        let raw = string_of_range(v, b, end);
        proof {
            reveal_strlit("\\\"");
        }
        let value = replace(raw.as_str(), "\\\"", "\"");
        if end < n {
            assert(v@.skip(end + 1) =~= body.skip(end - b + 1));
            (value, end + 1)
        } else {
            assert(v@.skip(n as int) =~= Seq::<char>::empty());
            (value, n)
        }
    } else {
        assert(at < n ==> rest[0] == v@[at as int]);
        let mut end: usize = at;
        while end < n && !(v[end] == ',' || is_white(v[end]))
            invariant
                n == v@.len(),
                at <= end <= n,
                rest == v@.skip(at as int),
                separator_at(rest, 0) == separator_at(rest, end - at),
            decreases n - end,
        {
            assert(rest[end - at] == v@[end as int]);
            end = end + 1;
        }
        assert(end < n ==> rest[end - at] == v@[end as int]);
        assert(separator_at(rest, 0) == end - at);
        assert(v@.subrange(at as int, end as int) =~= rest.take(end - at));
        assert(v@.skip(end as int) =~= rest.skip(end - at));
        (string_of_range(v, at, end), end)
    }
}

/// The first parameter at or after index `i`, and the index at which the rest begins.
fn next_param(v: &Vec<char>, start: usize) -> (r: Option<(String, String, usize)>)
    requires
        start <= v@.len(),
    ensures
        match r {
            None => challenge_params(v@.skip(start as int)).len() == 0,
            Some(p) => {
                &&& start < p.2 <= v@.len()
                &&& challenge_params(v@.skip(start as int)) == seq![(p.0@, p.1@)]
                    + challenge_params(v@.skip(p.2 as int))
            },
        },
{
    let n: usize = v.len();
    let ghost whole = v@.skip(start as int);
    let mut i: usize = start;
    while i < n && (v[i] == ',' || is_white(v[i]))
        invariant
            n == v@.len(),
            start <= i <= n,
            unseparated(whole) == unseparated(v@.skip(i as int)),
        decreases n - i,
    {
        assert(v@.skip(i as int)[0] == v@[i as int]);
        assert(v@.skip(i as int).skip(1) =~= v@.skip(i + 1));
        i = i + 1;
    }
    let ghost t = v@.skip(i as int);
    assert(i < n ==> t[0] == v@[i as int]);
    assert(unseparated(whole) == t);
    let mut eq: usize = i;
    while eq < n && v[eq] != '='
        invariant
            n == v@.len(),
            i <= eq <= n,
            t == v@.skip(i as int),
            forall|j: int| 0 <= j < eq - i ==> t[j] != '=',
        decreases n - eq,
    {
        assert(t[eq - i] == v@[eq as int]);
        eq = eq + 1;
    }
    assert(eq < n ==> t[eq - i] == v@[eq as int]);
    proof {
        crate::text::lemma_index_of_is(t, '=', eq - i);
    }
    if eq == n {
        return None;
    }
    assert(v@.subrange(i as int, eq as int) =~= t.take(eq - i));
    let raw_key = string_of_range(v, i, eq);
    let key = trim(raw_key.as_str());
    assert(t.skip(eq - i + 1) =~= v@.skip(eq + 1));
    let (value, next) = take_value(v, eq + 1);
    Some((key, value, next))
}

/// Splits the parameters of an authentication challenge, such as
/// `realm="...",service="...",scope="..."`, into keys and values. Values may be quoted, with
/// escaped quotes inside.
pub fn split_auth_params(s: &str) -> (r: Vec<(String, String)>)
    ensures
        pair_views(r@) == challenge_params(s@),
{
    let v = chars_of(s);
    let mut out: Vec<(String, String)> = Vec::new();
    let mut i: usize = 0;
    assert(v@.skip(0) =~= v@);
    assert(pair_views(out@) + challenge_params(v@.skip(0)) =~= challenge_params(s@));
    loop
        invariant
            v@ == s@,
            i <= v@.len(),
            pair_views(out@) + challenge_params(v@.skip(i as int)) == challenge_params(s@),
        ensures
            pair_views(out@) == challenge_params(s@),
        decreases v@.len() - i,
    {
        let ghost done = pair_views(out@);
        match next_param(&v, i) {
            None => {
                assert(done + challenge_params(v@.skip(i as int)) =~= done);
                break;
            },
            Some((key, value, next)) => {
                let ghost pair = (key@, value@);
                let ghost rest = challenge_params(v@.skip(next as int));
                out.push((key, value));
                assert(pair_views(out@) =~= done.push(pair));
                assert(done + (seq![pair] + rest) =~= done.push(pair) + rest);
                i = next;
            },
        }
    }
    out
}

/// The value that the last parameter with a key has; empty where there is none.
pub open spec fn last_param(params: Seq<(Seq<char>, Seq<char>)>, key: Seq<char>) -> Seq<char>
    decreases params.len(),
{
    if params.len() == 0 {
        Seq::empty()
    } else if params.last().0 == key {
        params.last().1
    } else {
        last_param(params.drop_last(), key)
    }
}

fn param(params: &Vec<(String, String)>, key: &str) -> (r: String)
    ensures
        r@ == last_param(pair_views(params@), key@),
{
    let ghost all = pair_views(params@);
    let mut i: usize = params.len();
    assert(all.take(i as int) =~= all);
    while i > 0
        invariant
            i <= params@.len(),
            all == pair_views(params@),
            last_param(all, key@) == last_param(all.take(i as int), key@),
        decreases i,
    {
        assert(all.take(i as int).last() == (params@[i - 1].0@, params@[i - 1].1@));
        assert(all.take(i as int).drop_last() =~= all.take(i - 1));
        if same(params[i - 1].0.as_str(), key) {
            return params[i - 1].1.clone();
        }
        i = i - 1;
    }
    String::new()
}

/// The parameters of a bearer challenge.
pub open spec fn bearer_challenge(header: Seq<char>) -> Option<Seq<char>> {
    if begins(header, "Bearer "@) {
        Some(header.skip("Bearer "@.len() as int))
    } else if begins(header, "bearer "@) {
        Some(header.skip("bearer "@.len() as int))
    } else {
        None
    }
}

/// The address at which a bearer challenge says to get a token.
pub open spec fn token_address(header: Seq<char>) -> Option<Seq<char>> {
    match bearer_challenge(header) {
        None => None,
        Some(c) => {
            let params = challenge_params(c);
            let realm = last_param(params, "realm"@);
            let scope = last_param(params, "scope"@);
            let base = realm + "?service="@ + last_param(params, "service"@);
            if realm.len() == 0 {
                None
            } else if scope.len() == 0 {
                Some(base)
            } else {
                Some(base + "&scope="@ + scope)
            }
        },
    }
}

/// The address at which a `WWW-Authenticate` header says to get a token.
pub fn token_url(header: &str) -> (r: Option<String>)
    ensures
        opt_view(r) == token_address(header@),
{
    let challenge = match strip_prefix(header, "Bearer ") {
        Some(c) => c,
        None => match strip_prefix(header, "bearer ") {
            Some(c) => c,
            None => {
                return None;
            },
        },
    };
    let params = split_auth_params(challenge.as_str());
    let realm = param(&params, "realm");
    let service = param(&params, "service");
    let scope = param(&params, "scope");
    if realm.as_str().is_empty() {
        return None;
    }
    let mut url = realm;
    url.append("?service=");
    url.append(service.as_str());
    if !scope.as_str().is_empty() {
        url.append("&scope=");
        url.append(scope.as_str());
    }
    Some(url)
}

// ---------------------------------------------------------------------------
// Laws
// ---------------------------------------------------------------------------

/// A tag is read back from a reference, and so is the name before it.
pub proof fn law_tag_reads_back(name: Seq<char>, tag: Seq<char>)
    requires
        !name.contains('@'),
        !tag.contains('@'),
        !tag.contains(':'),
        !tag.contains('/'),
    ensures
        name_and_tag(name.push(':') + tag) == (name, tag),
{
    let s = name.push(':') + tag;
    let n = name.len() as int;
    lemma_last_index_of(s, '@');
    lemma_last_index_of(s, ':');
    assert(s[n] == ':');
    let at = last_index_of(s, '@');
    if at >= 0 {
        if at < n {
            assert(name[at] == '@');
        } else if at > n {
            assert(tag[at - n - 1] == '@');
        }
    }
    let colon = last_index_of(s, ':');
    if colon > n {
        assert(tag[colon - n - 1] == ':');
    }
    assert(colon == n);
    assert(s.take(n) =~= name);
    assert(s.skip(n + 1) =~= tag);
}

/// A reference to a registry with a port, without a tag, keeps both: the port is no tag.
pub proof fn law_port_is_no_tag(host: Seq<char>, port: u16, path: Seq<char>)
    requires
        !host.contains('/'),
        !host.contains('@'),
        !path.contains('@'),
        !path.contains(':'),
    ensures
        ({
            let s = host.push(':') + decimal(port as nat).push('/') + path;
            name_and_tag(s) == (s, "latest"@)
        }),
{
    let d = decimal(port as nat);
    let tag = d.push('/') + path;
    let s = host.push(':') + d.push('/') + path;
    let n = host.len() as int;
    lemma_decimal(port as nat);
    assert forall|j: int| 0 <= j < d.len() implies d[j] != '/' && d[j] != ':' && d[j] != '@' by {
        assert(digit(d[j]));
    }
    assert(!d.contains('/'));
    assert(s =~= host.push(':') + tag);
    lemma_last_index_of(s, '@');
    lemma_last_index_of(s, ':');
    assert(s[n] == ':');
    assert forall|j: int| 0 <= j < tag.len() implies tag[j] != ':' && tag[j] != '@' by {
        if j < d.len() {
            assert(tag[j] == d[j]);
        } else if j > d.len() {
            assert(tag[j] == path[j - d.len() - 1]);
        }
    }
    let at = last_index_of(s, '@');
    if at >= 0 {
        if at < n {
            assert(host[at] == '@');
        } else if at > n {
            assert(tag[at - n - 1] == '@');
        }
    }
    let colon = last_index_of(s, ':');
    if colon > n {
        assert(tag[colon - n - 1] == ':');
    }
    assert(s.take(n) =~= host);
    assert(s.skip(n + 1) =~= tag);
    assert(tag[d.len() as int] == '/');
    lemma_pieces_head(d, '/', path);
    assert(pieces(tag, '/')[0] == d);
    law_decimal_reads_back(port as nat, 65535);
}

/// A registry is the part before the first slash where it has a dot or a port in it; images of a user
/// without one are on Docker Hub.
pub proof fn law_registry_is_told_by_its_name(first: Seq<char>, rest: Seq<char>)
    requires
        !first.contains('/'),
        !rest.contains('/'),
    ensures
        first.contains('.') || first.contains(':') ==> registry_and_repository(
            first.push('/') + rest,
        ) == (first, rest),
        !first.contains('.') && !first.contains(':') ==> registry_and_repository(
            first.push('/') + rest,
        ) == ("registry-1.docker.io"@, first + "/"@ + rest),
{
    let s = first.push('/') + rest;
    lemma_pieces_head(first, '/', rest);
    lemma_pieces_single(rest, '/');
    assert(pieces(s, '/') =~= seq![first, rest]);
    assert(seq![first, rest].skip(1) =~= seq![rest]);
}

/// The size of an image is that of its layers together: each adds its own, wherever it stands.
pub proof fn law_layer_sizes_add_up(layers: Seq<ManifestLayer>, i: int)
    requires
        0 <= i < layers.len(),
    ensures
        layers[i].size matches Some(n) ==> layers_size(layers) == layers_size(layers.remove(i)) + n,
        layers[i].size is None ==> layers_size(layers) == layers_size(layers.remove(i)),
        layers_size(Seq::<ManifestLayer>::empty()) == 0,
    decreases layers.len(),
{
    if i == layers.len() - 1 {
        assert(layers.remove(i) =~= layers.drop_last());
    } else {
        law_layer_sizes_add_up(layers.drop_last(), i);
        assert(layers.remove(i).drop_last() =~= layers.drop_last().remove(i));
        assert(layers.remove(i).last() == layers.last());
        assert(layers.drop_last()[i] == layers[i]);
    }
}

/// A layer is found under the begin of its digest with its size, unless a later one has the same; a
/// number is cut only where it does not fit.
pub proof fn law_layers_are_found_by_digest(layers: Seq<ManifestLayer>, i: int, n: nat)
    requires
        0 <= i < layers.len(),
        layers[i].digest is Some,
    ensures
        ({
            let k = prefix_of_digest(layers[i].digest->0@);
            &&& lookup(sizes_by_digest(layers), k) is Some
            &&& (forall|j: int|
                i < j < layers.len() ==> ((#[trigger] layers[j]).digest matches Some(d)
                    ==> prefix_of_digest(d@) != k)) ==> lookup(sizes_by_digest(layers), k) == Some(
                match layers[i].size {
                    Some(s) => s,
                    None => 0u64,
                },
            )
        }),
        n <= u64::MAX ==> capped(n) == n,
        n > u64::MAX ==> capped(n) == u64::MAX,
    decreases layers.len(),
{
    let k = prefix_of_digest(layers[i].digest->0@);
    let d = layers.drop_last();
    let l = layers.last();
    if let Some(x) = l.digest {
        law_put_then_lookup(sizes_by_digest(d), prefix_of_digest(x@), layer_size(l) as u64, k);
    }
    if i < d.len() {
        law_layers_are_found_by_digest(d, i, n);
        assert(d[i] == layers[i]);
        if forall|j: int|
            i < j < layers.len() ==> ((#[trigger] layers[j]).digest matches Some(d)
                ==> prefix_of_digest(d@) != k) {
            assert(layers[layers.len() - 1] == l);
            assert forall|j: int| i < j < d.len() implies ((#[trigger] d[j]).digest matches Some(x)
                ==> prefix_of_digest(x@) != k) by {
                assert(d[j] == layers[j]);
            }
        }
    }
}

/// A layer is named by at most twelve characters with which the hash in its digest begins.
pub proof fn law_digest_prefix_is_short(hash: Seq<char>)
    ensures
        prefix_of_digest("sha256:"@ + hash).len() <= 12,
        begins(hash, prefix_of_digest("sha256:"@ + hash)),
        hash.len() >= 12 ==> prefix_of_digest("sha256:"@ + hash).len() == 12,
{
    let s = "sha256:"@ + hash;
    let n = "sha256:"@.len() as int;
    assert(s.subrange(0, n) =~= "sha256:"@);
    assert(s.skip(n) =~= hash);
    let p = prefix_of_digest(s);
    assert(hash.subrange(0, p.len() as int) =~= p);
}

/// Of the platforms in a list, the first that is Linux on this architecture is taken; none where there
/// is none.
pub proof fn law_first_platform_that_fits(list: Seq<ManifestListEntry>, arch: Seq<char>, k: int)
    ensures
        (forall|i: int| 0 <= i < list.len() ==> !runs_on(#[trigger] list[i], arch)) ==> digest_for(
            list,
            arch,
        ) is None,
        0 <= k < list.len() && runs_on(list[k], arch) && (forall|i: int|
            0 <= i < k ==> !runs_on(#[trigger] list[i], arch)) ==> digest_for(list, arch)
            == opt_view(list[k].digest),
    decreases list.len(),
{
    if list.len() > 0 && !runs_on(list[0], arch) {
        let r = list.skip(1);
        law_first_platform_that_fits(r, arch, k - 1);
        assert forall|i: int| 0 <= i < r.len() implies #[trigger] r[i] == list[i + 1] by {}
        if forall|i: int| 0 <= i < list.len() ==> !runs_on(#[trigger] list[i], arch) {
            assert forall|i: int| 0 <= i < r.len() implies !runs_on(#[trigger] r[i], arch) by {
                assert(list[i + 1] == r[i]);
            }
        }
        if 0 < k < list.len() && (forall|i: int|
            0 <= i < k ==> !runs_on(#[trigger] list[i], arch)) {
            assert(r[k - 1] == list[k]);
            assert forall|i: int| 0 <= i < k - 1 implies !runs_on(#[trigger] r[i], arch) by {
                assert(list[i + 1] == r[i]);
            }
        }
    }
}

/// Whether a text can be the key of a parameter: letters alone.
pub open spec fn plain_key(k: Seq<char>) -> bool {
    k.len() > 0 && forall|i: int| 0 <= i < k.len() ==> 'a' <= #[trigger] k[i] && k[i] <= 'z'
}

proof fn lemma_plain_value(v: Seq<char>, rest: Seq<char>)
    requires
        !v.contains('"'),
        !v.contains('\\'),
    ensures
        value_and_rest(seq!['"'] + v + seq!['"'] + rest) == (v, rest),
{
    let s = seq!['"'] + v + seq!['"'] + rest;
    let body = s.skip(1);
    let n = v.len() as int;
    assert(body =~= v + seq!['"'] + rest);
    assert forall|i: int| 0 <= i < n implies body[i] != '"' by {
        assert(v.contains(v[i]));
    }
    if n > 0 {
        assert(v.contains(v[n - 1]));
    }
    lemma_quote_there(body, 0, n);
    assert(body.take(n) =~= v);
    assert(body.skip(n + 1) =~= rest);
    reveal_strlit("\\\"");
    assert(!has_sub(v, "\\\""@)) by {
        if has_sub(v, "\\\""@) {
            let i = choose|i: int| #[trigger] occurs_at(v, "\\\""@, i);
            assert(v.subrange(i, i + 2)[1] == v[i + 1]);
            assert("\\\""@[1] == '"');
            assert(v.contains('"'));
        }
    }
    law_replacing_goes_left_to_right(v, "\\\""@, "\""@, 0);
}

proof fn lemma_quote_there(s: Seq<char>, from: int, n: int)
    requires
        0 <= from <= n < s.len(),
        s[n] == '"',
        n == 0 || s[n - 1] != '\\',
        forall|i: int| from <= i < n ==> s[i] != '"',
    ensures
        quote_end(s, from) == n,
    decreases n - from,
{
    if from < n {
        lemma_quote_there(s, from + 1, n);
    }
}

/// The parameters of a challenge are read one after another: the value of a parameter stands in quotes
/// behind its key, and the rest follows a comma.
pub proof fn law_parameters_read_back(key: Seq<char>, v: Seq<char>, rest: Seq<char>)
    requires
        plain_key(key),
        !v.contains('"'),
        !v.contains('\\'),
    ensures
        challenge_params(key + seq!['=', '"'] + v + seq!['"'] + rest) == seq![(key, v)]
            + challenge_params(rest),
        challenge_params(seq![','] + rest) == challenge_params(rest),
        challenge_params(Seq::empty()).len() == 0,
{
    let s = key + seq!['=', '"'] + v + seq!['"'] + rest;
    let n = key.len() as int;
    assert(s[0] == key[0]);
    assert(!white(key[0]) && !white(key.last()));
    assert(unseparated(s) == s);
    assert forall|j: int| 0 <= j < n implies s[j] != '=' by {
        assert(s[j] == key[j]);
    }
    assert(s[n] == '=');
    lemma_index_of_is(s, '=', n);
    assert(s.take(n) =~= key);
    assert(s.skip(n + 1) =~= seq!['"'] + v + seq!['"'] + rest);
    lemma_plain_value(v, rest);
    assert(trimmed(key) == key);
    let c = seq![','] + rest;
    assert(c.skip(1) =~= rest);
    assert(unseparated(c) == unseparated(rest));
}

/// A token is asked for at the realm of a bearer challenge, with its service and, where there is one,
/// its scope; there is no address without a realm or for another kind of challenge.
pub proof fn law_tokens_are_asked_for_at_the_realm(header: Seq<char>)
    ensures
        token_address(header) matches Some(a) ==> (bearer_challenge(header) matches Some(c)
            && last_param(challenge_params(c), "realm"@).len() > 0 && begins(
            a,
            last_param(challenge_params(c), "realm"@) + "?service="@ + last_param(
                challenge_params(c),
                "service"@,
            ),
        )),
        bearer_challenge(header) is None ==> token_address(header) is None,
        bearer_challenge(header) matches Some(c) ==> (last_param(challenge_params(c), "realm"@).len()
            > 0 ==> token_address(header) is Some && (last_param(
            challenge_params(c),
            "scope"@,
        ).len() > 0 ==> ends(
            token_address(header)->0,
            "&scope="@ + last_param(challenge_params(c), "scope"@),
        ))),
{
    if let Some(c) = bearer_challenge(header) {
        let p = challenge_params(c);
        let base = last_param(p, "realm"@) + "?service="@ + last_param(p, "service"@);
        let tail = "&scope="@ + last_param(p, "scope"@);
        assert(base.subrange(0, base.len() as int) =~= base);
        assert((base + "&scope="@ + last_param(p, "scope"@)).subrange(0, base.len() as int)
            =~= base);
        let a = base + "&scope="@ + last_param(p, "scope"@);
        assert(a.subrange(a.len() - tail.len(), a.len() as int) =~= tail);
    }
}

/// The value of a parameter is the one that it is given last.
pub proof fn law_last_parameter_counts(params: Seq<(Seq<char>, Seq<char>)>, key: Seq<char>, k: int)
    ensures
        0 <= k < params.len() && params[k].0 == key && (forall|i: int|
            k < i < params.len() ==> (#[trigger] params[i]).0 != key) ==> last_param(params, key)
            == params[k].1,
        (forall|i: int| 0 <= i < params.len() ==> (#[trigger] params[i]).0 != key) ==> last_param(
            params,
            key,
        ).len() == 0,
    decreases params.len(),
{
    if params.len() > 0 {
        let d = params.drop_last();
        law_last_parameter_counts(d, key, k);
        assert(params[params.len() - 1] == params.last());
        assert forall|i: int| 0 <= i < d.len() implies #[trigger] d[i] == params[i] by {}
    }
}

} // verus!
