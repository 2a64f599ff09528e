//! What a node does with its identity provider: how it names itself to one, and
//! when it asks for a fresher key set.
//!
//! A provider rotates its signing keys. A timer refetches them, and so does a
//! **nudge**, raised when a token arrives naming a key id nobody knows. The
//! nudge is rate-limited: the key id in a token is the caller's to choose, so
//! an unlimited nudge would make this node hammer its own provider.
//!
//! An instant is a number of milliseconds of one monotonic clock.

use vstd::prelude::*;
use vstd::string::*;

use crate::json::{json_items, json_members, Json, JsonView};
use crate::text::{begins_with, chars_of, decimal, push_decimal, starts_with};

verus! {

/// Shortest gap between two key-id-driven refetches, in milliseconds.
pub const MIN_REFETCH_INTERVAL_MS: u64 = 30_000;

/// Shortest gap between two lifetime-refusal warnings, in milliseconds. A
/// provider minting tokens over the limit produces a refusal on every request.
pub const MIN_LIFETIME_WARNING_INTERVAL_MS: u64 = 60_000;

/// Where a protected resource's metadata is served.
pub const PROTECTED_RESOURCE_METADATA_PATH: &'static str = "/.well-known/oauth-protected-resource";

/// `s` without the slashes at its end.
pub open spec fn without_slashes(s: Seq<char>) -> Seq<char>
    decreases s.len(),
{
    if s.len() > 0 && s.last() == '/' {
        without_slashes(s.drop_last())
    } else {
        s
    }
}

/// Where the first slash of `s` stands; its length where there is none.
pub open spec fn first_slash(s: Seq<char>) -> int
    decreases s.len(),
{
    if s.len() == 0 || s[0] == '/' {
        0
    } else {
        1 + first_slash(s.skip(1))
    }
}

/// Where the path of a resource identifier begins: after the scheme and the
/// authority, where it is an https URI; at its end otherwise.
pub open spec fn path_start(resource: Seq<char>) -> int {
    let trimmed = without_slashes(resource);
    if begins_with(trimmed, "https://"@) {
        8 + first_slash(trimmed.skip(8))
    } else {
        trimmed.len() as int
    }
}

/// A resource identifier up to its path.
pub open spec fn authority(resource: Seq<char>) -> Seq<char> {
    without_slashes(resource).take(path_start(resource))
}

/// A resource identifier's path.
pub open spec fn resource_path(resource: Seq<char>) -> Seq<char> {
    without_slashes(resource).skip(path_start(resource))
}

proof fn lemma_first_slash(s: Seq<char>)
    ensures
        0 <= first_slash(s) <= s.len(),
    decreases s.len(),
{
    if s.len() > 0 && s[0] != '/' {
        lemma_first_slash(s.skip(1));
    }
}

/// The two parts a resource identifier is cut into.
struct Cut<'a> {
    authority: &'a str,
    path: &'a str,
}

fn cut<'a>(resource: &'a str) -> (parts: Cut<'a>)
    ensures
        parts.authority@ == authority(resource@),
        parts.path@ == resource_path(resource@),
{
    let chars = chars_of(resource);
    let mut end: usize = chars.len();
    assert(resource@.take(end as int) =~= resource@);
    while end > 0 && chars[end - 1] == '/'
        invariant
            end <= chars.len(),
            chars@ == resource@,
            without_slashes(resource@) == without_slashes(resource@.take(end as int)),
        decreases end,
    {
        assert(resource@.take(end as int).drop_last() =~= resource@.take(end - 1));
        end = end - 1;
    }
    proof {
        if end > 0 {
            assert(resource@.take(end as int).last() == chars@[end - 1]);
        }
        assert(resource@.take(end as int) =~= resource@.subrange(0, end as int));
    }
    let trimmed = resource.substring_char(0, end);
    assert(trimmed@ == without_slashes(resource@));
    let mut at: usize = end;
    if starts_with(trimmed, "https://") {
        proof {
            reveal_strlit("https://");
        }
        let ghost rest = trimmed@.skip(8);
        at = 8;
        assert(rest.skip(0) =~= rest);
        while at < end && chars[at] != '/'
            invariant
                8 <= at <= end <= chars.len(),
                chars@ == resource@,
                trimmed@ == resource@.subrange(0, end as int),
                rest == trimmed@.skip(8),
                first_slash(rest) == at - 8 + first_slash(rest.skip(at - 8)),
            decreases end - at,
        {
            assert(rest[at - 8] == chars@[at as int]);
            assert(rest.skip(at - 8).skip(1) =~= rest.skip(at - 7));
            at = at + 1;
        }
        proof {
            if at < end {
                assert(rest.skip(at - 8)[0] == chars@[at as int]);
            }
            assert(first_slash(rest.skip(at - 8)) == 0);
        }
    }
    assert(at == path_start(resource@));
    assert(trimmed@.subrange(0, at as int) =~= trimmed@.take(at as int));
    assert(trimmed@.subrange(at as int, end as int) =~= trimmed@.skip(at as int));
    Cut { authority: trimmed.substring_char(0, at), path: trimmed.substring_char(at, end) }
}

/// The path a resource identifier's metadata is served at.
///
/// Inserted between the authority and the path, not appended: for
/// `https://host/kimmy` it is `/.well-known/oauth-protected-resource/kimmy`,
/// which keeps two resources on one host distinguishable.
pub fn metadata_path_for(resource: &str) -> (path: String)
    ensures
        path@ == PROTECTED_RESOURCE_METADATA_PATH@ + resource_path(resource@),
{
    let mut path = PROTECTED_RESOURCE_METADATA_PATH.to_owned();
    path.append(cut(resource).path);
    path
}

/// The absolute URL of that document, as a challenge has to name it.
pub fn metadata_url_for(resource: &str) -> (url: String)
    ensures
        url@ == authority(resource@) + (PROTECTED_RESOURCE_METADATA_PATH@ + resource_path(
            resource@,
        )),
{
    let mut url = cut(resource).authority.to_owned();
    url.append(metadata_path_for(resource).as_str());
    url
}

/// The metadata path goes between the authority and the path: what stands on
/// either side of it, put together, is the identifier without its last slashes,
/// and what stands behind it starts with a slash.
pub proof fn metadata_path_is_inserted(resource: Seq<char>)
    ensures
        authority(resource) + resource_path(resource) == without_slashes(resource),
        resource_path(resource).len() > 0 ==> resource_path(resource)[0] == '/',
{
    let trimmed = without_slashes(resource);
    reveal_strlit("https://");
    if begins_with(trimmed, "https://"@) {
        lemma_first_slash(trimmed.skip(8));
        lemma_slash_stands(trimmed.skip(8));
        let at = path_start(resource);
        if at < trimmed.len() {
            assert(trimmed.skip(8)[at - 8] == trimmed[at]);
        }
    }
    assert(authority(resource) + resource_path(resource) =~= trimmed);
}

proof fn lemma_slash_stands(s: Seq<char>)
    ensures
        first_slash(s) < s.len() ==> s[first_slash(s)] == '/',
    decreases s.len(),
{
    if s.len() > 0 && s[0] != '/' {
        lemma_first_slash(s.skip(1));
        lemma_slash_stands(s.skip(1));
    }
}

/// Whether an event may happen again at `now`: never before, or its interval
/// has passed. A clock that went backwards has not passed it.
pub open spec fn permitted(last: Option<u64>, now: u64, interval: u64) -> bool {
    match last {
        Some(at) => now >= at && now - at >= interval,
        None => true,
    }
}

fn take_permit(last: &mut Option<u64>, now: u64, interval: u64) -> (granted: bool)
    requires
        interval > 0,
    ensures
        granted == permitted(*old(last), now, interval),
        *final(last) == (if granted {
            Some(now)
        } else {
            *old(last)
        }),
{
    match *last {
        Some(at) => {
            if now < at || now - at < interval {
                return false;
            }
        },
        None => {},
    }
    *last = Some(now);
    true
}

/// What verifying a federated token came to.
#[derive(Debug)]
pub enum Verified {
    /// Accepted, or refused for a reason that is the caller's alone.
    Settled,
    /// The token names a key id the current set does not hold.
    UnknownSigningKey,
    /// The token is valid for longer than this node accepts.
    TokenLifetimeExceeded { max_secs: u64, lifetime_secs: u64 },
    /// The token's lifetime cannot be told.
    TokenLifetimeUnbounded { max_secs: u64 },
}

/// What a node does about a token, beside answering its caller.
#[derive(Debug)]
pub enum Notice {
    Nothing,
    /// Ask for a fresh key set.
    RequestRefresh,
    /// Warn the operator: nobody else can fix the provider's configuration.
    Warn(String),
}

/// The warning about a provider whose tokens are valid for too long.
pub open spec fn exceeded_warning(max_secs: u64, lifetime_secs: u64) -> Seq<char> {
    "the provider is minting access tokens valid for "@ + decimal(lifetime_secs as nat)
        + "s, longer than the "@ + decimal(max_secs as nat)
        + "s this node accepts; every federated request is being refused. Shorten the provider's access token lifetime for this resource, or raise auth.oidc.max_token_lifetime_secs knowingly"@
}

/// The warning about a provider whose tokens do not say how long they are valid.
pub open spec fn unbounded_warning(max_secs: u64) -> Seq<char> {
    "the provider is minting access tokens with no iat, so their lifetime cannot be checked against the "@
        + decimal(max_secs as nat)
        + "s this node accepts; every federated request is being refused. RFC 9068 §2.2 requires the claim and there is no setting here that waives it"@
}

/// A node's side of its federation with one provider.
#[derive(Debug)]
pub struct Federation {
    pub issuer: String,
    /// What this node calls itself to an authorization server. None where the
    /// audience is an opaque string rather than an https URI.
    pub resource_identifier: Option<String>,
    /// Whether a federated principal may hold `admin`.
    pub allow_federated_admin: bool,
    /// How many signing keys are currently trusted.
    pub key_count: usize,
    /// When the last nudge was let through.
    pub last_nudge: Option<u64>,
    /// When the last lifetime refusal was warned about. Separate from the
    /// nudge: one must not silence the other.
    pub last_lifetime_warning: Option<u64>,
}

/// Whether a federation is what it was, but for its two rate limits.
pub open spec fn same_settings(a: Federation, b: Federation) -> bool {
    &&& a.issuer == b.issuer
    &&& a.resource_identifier == b.resource_identifier
    &&& a.allow_federated_admin == b.allow_federated_admin
    &&& a.key_count == b.key_count
}

impl Federation {
    /// A federation that trusts no key yet: a state the node serves in.
    pub fn new(
        issuer: String,
        resource_identifier: Option<String>,
        allow_federated_admin: bool,
    ) -> (f: Self)
        ensures
            f.issuer == issuer,
            f.resource_identifier == resource_identifier,
            f.allow_federated_admin == allow_federated_admin,
            f.key_count == 0,
            f.last_nudge is None,
            f.last_lifetime_warning is None,
    {
        Federation {
            issuer,
            resource_identifier,
            allow_federated_admin,
            key_count: 0,
            last_nudge: None,
            last_lifetime_warning: None,
        }
    }

    /// The issuer this node federates with.
    pub fn issuer(&self) -> (issuer: String)
        ensures
            issuer == self.issuer,
    {
        self.issuer.clone()
    }

    pub fn resource_identifier(&self) -> (resource: Option<String>)
        ensures
            resource == self.resource_identifier,
    {
        match &self.resource_identifier {
            Some(resource) => Some(resource.clone()),
            None => None,
        }
    }

    /// Where this node's own metadata lives, for a challenge. Built from the
    /// identifier, because that is the name the authorization server was told.
    pub fn resource_metadata_url(&self) -> (url: Option<String>)
        ensures
            url is Some <==> self.resource_identifier is Some,
            url matches Some(u) ==> u@ == authority(self.resource_identifier->0@) + (
            PROTECTED_RESOURCE_METADATA_PATH@ + resource_path(self.resource_identifier->0@)),
    {
        match &self.resource_identifier {
            Some(resource) => Some(metadata_url_for(resource.as_str())),
            None => None,
        }
    }

    /// The path that URL resolves to on this node.
    pub fn resource_metadata_path(&self) -> (path: Option<String>)
        ensures
            path is Some <==> self.resource_identifier is Some,
            path matches Some(p) ==> p@ == PROTECTED_RESOURCE_METADATA_PATH@ + resource_path(
                self.resource_identifier->0@,
            ),
    {
        match &self.resource_identifier {
            Some(resource) => Some(metadata_path_for(resource.as_str())),
            None => None,
        }
    }

    /// The protected resource metadata document. It advertises no scopes:
    /// authorization here is roles carried in the token.
    pub fn protected_resource_metadata(&self) -> (document: Option<Json>)
        ensures
            document is Some <==> self.resource_identifier is Some,
            document matches Some(d) ==> d@ == JsonView::Object(
                seq![
                    ("resource"@, JsonView::String(self.resource_identifier->0@)),
                    (
                        "authorization_servers"@,
                        JsonView::Array(seq![JsonView::String(self.issuer@)]),
                    ),
                    (
                        "bearer_methods_supported"@,
                        JsonView::Array(seq![JsonView::String("header"@)]),
                    ),
                ],
            ),
    {
        broadcast use crate::json::json_view;

        match &self.resource_identifier {
            Some(resource) => {
                let servers: Vec<Json> = vec![Json::String(self.issuer.clone())];
                let methods: Vec<Json> = vec![Json::String("header".to_owned())];
                assert(json_items(servers@) =~= seq![JsonView::String(self.issuer@)]);
                assert(json_items(methods@) =~= seq![JsonView::String("header"@)]);
                let members: Vec<(String, Json)> = vec![
                    ("resource".to_owned(), Json::String(resource.clone())),
                    ("authorization_servers".to_owned(), Json::Array(servers)),
                    ("bearer_methods_supported".to_owned(), Json::Array(methods)),
                ];
                assert(json_members(members@) =~= seq![
                    ("resource"@, JsonView::String(self.resource_identifier->0@)),
                    (
                        "authorization_servers"@,
                        JsonView::Array(seq![JsonView::String(self.issuer@)]),
                    ),
                    (
                        "bearer_methods_supported"@,
                        JsonView::Array(seq![JsonView::String("header"@)]),
                    ),
                ]);
                Some(Json::Object(members))
            },
            None => None,
        }
    }

    pub fn allow_federated_admin(&self) -> (b: bool)
        ensures
            b == self.allow_federated_admin,
    {
        self.allow_federated_admin
    }

    pub fn key_count(&self) -> (n: usize)
        ensures
            n == self.key_count,
    {
        self.key_count
    }

    /// Adopt a freshly fetched key set of `keys` keys. The swap replaces key
    /// material, never who is trusted or what a claim is worth.
    pub fn install_keys(&mut self, keys: usize)
        ensures
            *final(self) == (Federation { key_count: keys, ..*old(self) }),
    {
        self.key_count = keys;
    }

    /// What to do about a token that was verified at `now`, beside answering
    /// its caller.
    pub fn verify(&mut self, outcome: &Verified, now: u64) -> (notice: Notice)
        ensures
            same_settings(*old(self), *final(self)),
            match outcome {
                Verified::Settled => {
                    &&& notice is Nothing
                    &&& *final(self) == *old(self)
                },
                Verified::UnknownSigningKey => {
                    &&& permitted(old(self).last_nudge, now, MIN_REFETCH_INTERVAL_MS)
                        ==> notice is RequestRefresh && final(self).last_nudge == Some(now)
                    &&& !permitted(old(self).last_nudge, now, MIN_REFETCH_INTERVAL_MS)
                        ==> notice is Nothing && final(self).last_nudge == old(self).last_nudge
                    &&& final(self).last_lifetime_warning == old(self).last_lifetime_warning
                },
                _ => {
                    &&& permitted(
                        old(self).last_lifetime_warning,
                        now,
                        MIN_LIFETIME_WARNING_INTERVAL_MS,
                    ) ==> final(self).last_lifetime_warning == Some(now) && notice is Warn
                        && notice->Warn_0@ == (match outcome {
                        Verified::TokenLifetimeExceeded { max_secs, lifetime_secs } =>
                            exceeded_warning(*max_secs, *lifetime_secs),
                        Verified::TokenLifetimeUnbounded { max_secs } => unbounded_warning(
                            *max_secs,
                        ),
                        _ => Seq::empty(),
                    })
                    &&& !permitted(
                        old(self).last_lifetime_warning,
                        now,
                        MIN_LIFETIME_WARNING_INTERVAL_MS,
                    ) ==> notice is Nothing && final(self).last_lifetime_warning == old(
                        self,
                    ).last_lifetime_warning
                    &&& final(self).last_nudge == old(self).last_nudge
                },
            },
    {
        match outcome {
            Verified::Settled => Notice::Nothing,
            Verified::UnknownSigningKey => {
                if take_permit(&mut self.last_nudge, now, MIN_REFETCH_INTERVAL_MS) {
                    Notice::RequestRefresh
                } else {
                    Notice::Nothing
                }
            },
            Verified::TokenLifetimeExceeded { max_secs, lifetime_secs } => {
                if self.take_lifetime_warning_permit(now) {
                    let mut text =
                        "the provider is minting access tokens valid for ".to_owned();
                    push_decimal(&mut text, *lifetime_secs);
                    text.append("s, longer than the ");
                    push_decimal(&mut text, *max_secs);
                    text.append(
                        "s this node accepts; every federated request is being refused. Shorten the provider's access token lifetime for this resource, or raise auth.oidc.max_token_lifetime_secs knowingly",
                    );
                    Notice::Warn(text)
                } else {
                    Notice::Nothing
                }
            },
            Verified::TokenLifetimeUnbounded { max_secs } => {
                if self.take_lifetime_warning_permit(now) {
                    let mut text =
                        "the provider is minting access tokens with no iat, so their lifetime cannot be checked against the ".to_owned();
                    push_decimal(&mut text, *max_secs);
                    text.append(
                        "s this node accepts; every federated request is being refused. RFC 9068 §2.2 requires the claim and there is no setting here that waives it",
                    );
                    Notice::Warn(text)
                } else {
                    Notice::Nothing
                }
            },
        }
    }

    /// Whether a lifetime refusal at `now` is warned about: at most one a
    /// minute.
    pub fn take_lifetime_warning_permit(&mut self, now: u64) -> (granted: bool)
        ensures
            granted == permitted(
                old(self).last_lifetime_warning,
                now,
                MIN_LIFETIME_WARNING_INTERVAL_MS,
            ),
            *final(self) == (Federation {
                last_lifetime_warning: if granted {
                    Some(now)
                } else {
                    old(self).last_lifetime_warning
                },
                ..*old(self)
            }),
    {
        take_permit(&mut self.last_lifetime_warning, now, MIN_LIFETIME_WARNING_INTERVAL_MS)
    }
}

/// Two grants of one rate limit are at least its interval apart, whatever was
/// asked in between.
pub proof fn grants_are_an_interval_apart(last: Option<u64>, first: u64, second: u64, interval: u64)
    requires
        permitted(last, first, interval),
        permitted(Some(first), second, interval),
    ensures
        second >= first + interval,
{
}

} // verus!
