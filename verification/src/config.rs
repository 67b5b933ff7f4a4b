//! Server configuration and the arguments that build it.

use vstd::prelude::*;

use crate::auth;
use crate::auth::{AuthPolicy, AuthPolicyView, Generated};
use crate::backend::{Engine, RegistryOptions};
use crate::text;

verus! {

/// Default ceiling on one upload request body, in bytes.
///
/// 32 GiB: comfortably above the largest layer anyone actually pushes, while
/// still bounding what one request can write to the disk. `0` on the command
/// line removes it entirely.
pub const DEFAULT_MAX_UPLOAD_BYTES: u64 = 34_359_738_368;

/// Default ceiling on a manifest, in bytes: 8 MiB.
pub const DEFAULT_MAX_MANIFEST_BYTES: usize = 8_388_608;

/// Limits and switches the handlers consult.
#[derive(Clone)]
pub struct ServerConfig {
    /// Largest manifest accepted, in bytes. Above it, `413`.
    pub max_manifest_bytes: usize,
    /// Largest single request body accepted on an upload `POST`/`PATCH`/`PUT`,
    /// or `None` for no ceiling at all.
    pub max_upload_bytes: Option<u64>,
    /// Page size used when `?n=` is absent.
    pub default_page_size: usize,
    /// Ceiling for `?n=`. An oversized `n` is **clamped, not rejected**.
    pub max_page_size: usize,
    /// Maximum `?tag=` parameters on one manifest `PUT`.
    pub max_tag_params: usize,
    /// Advertised `OCI-Chunk-Min-Length`, if any.
    pub chunk_min_length: Option<u64>,
    /// Whether `/v2/<name>/referrers/<digest>` is served.
    ///
    /// It also gates `OCI-Subject` on a manifest `PUT`: the header means "this
    /// registry processed your subject", and a registry that sends it while
    /// answering `404` on `/referrers/` contradicts itself.
    pub referrers_enabled: bool,
    /// Which requests require an API key. [`AuthPolicy::Open`] by default.
    pub auth: AuthPolicy,
}

impl Default for ServerConfig {
    fn default() -> (r: ServerConfig)
        ensures
            r.max_manifest_bytes == 8 * 1024 * 1024,
            r.max_upload_bytes == Some(DEFAULT_MAX_UPLOAD_BYTES),
            r.default_page_size == 1000,
            r.max_page_size == 1000,
            r.max_tag_params == 32,
            r.chunk_min_length is None,
            r.referrers_enabled,
            r.auth@ == AuthPolicyView::Open,
    {
        ServerConfig {
            max_manifest_bytes: DEFAULT_MAX_MANIFEST_BYTES,
            max_upload_bytes: Some(DEFAULT_MAX_UPLOAD_BYTES),
            default_page_size: 1000,
            max_page_size: 1000,
            max_tag_params: 32,
            chunk_min_length: None,
            referrers_enabled: true,
            auth: AuthPolicy::Open,
        }
    }
}

/// Which requests require an API key.
///
/// One axis, three points, from open to closed.
#[derive(Debug, Clone, Copy, PartialEq, Eq, Structural)]
pub enum AuthMode {
    /// None of them. Anyone may read and write. The default.
    Open,
    /// The ones that write: anonymous pull, keyed push.
    Write,
    /// All of them, with a read key and a write key.
    All,
}

/// The mode a word names: by which requests need a key, or by how open the
/// registry then is.
pub open spec fn mode_named(word: Seq<char>) -> Option<AuthMode> {
    if word == "none"@ || word == "open"@ {
        Some(AuthMode::Open)
    } else if word == "write"@ || word == "public-pull"@ {
        Some(AuthMode::Write)
    } else if word == "all"@ || word == "private"@ {
        Some(AuthMode::All)
    } else {
        None
    }
}

impl AuthMode {
    /// The mode a word names.
    pub fn from_name(word: &str) -> (r: Option<AuthMode>)
        ensures
            r == mode_named(word@),
    {
        if text::same(word, "none") || text::same(word, "open") {
            Some(AuthMode::Open)
        } else if text::same(word, "write") || text::same(word, "public-pull") {
            Some(AuthMode::Write)
        } else if text::same(word, "all") || text::same(word, "private") {
            Some(AuthMode::All)
        } else {
            None
        }
    }
}

/// The arguments of `serve`.
#[derive(Clone)]
pub struct ServeArgs {
    /// Address to listen on, as `<host>:<port>`.
    pub listen: String,
    /// Directory for blobs and metadata.
    pub data_dir: String,
    /// Metadata engine.
    pub engine: Engine,
    /// Accept a manifest whose layers or child manifests are not present yet.
    pub allow_missing_references: bool,
    /// Maximum manifest size in bytes.
    pub max_manifest_bytes: usize,
    /// Maximum bytes in one upload request body; `0` removes the limit.
    pub max_upload_bytes: u64,
    /// Default number of results for a list endpoint with no `?n=`.
    pub default_page_size: usize,
    /// Ceiling for `?n=`; larger requests are clamped to it.
    pub max_page_size: usize,
    /// Answer `404` on `/v2/<name>/referrers/<digest>` instead of serving it.
    pub no_referrers: bool,
    /// Stop counting pulls.
    pub no_pull_counts: bool,
    /// Which requests require an API key.
    pub auth: AuthMode,
    /// API key admitting `GET` and `HEAD`.
    pub read_apikey: Option<String>,
    /// API key admitting everything, reads included.
    pub write_apikey: Option<String>,
}

impl Default for ServeArgs {
    fn default() -> (r: ServeArgs)
        ensures
            r.listen@ == "127.0.0.1:3110"@,
            r.data_dir@ == "./data"@,
            r.engine == Engine::Rocks,
            !r.allow_missing_references,
            r.max_manifest_bytes == 8 * 1024 * 1024,
            r.max_upload_bytes == DEFAULT_MAX_UPLOAD_BYTES,
            r.default_page_size == 1000,
            r.max_page_size == 1000,
            !r.no_referrers,
            !r.no_pull_counts,
            r.auth == AuthMode::Open,
            r.read_apikey is None,
            r.write_apikey is None,
    {
        ServeArgs {
            listen: text::copy("127.0.0.1:3110"),
            data_dir: text::copy("./data"),
            engine: Engine::Rocks,
            allow_missing_references: false,
            max_manifest_bytes: DEFAULT_MAX_MANIFEST_BYTES,
            max_upload_bytes: DEFAULT_MAX_UPLOAD_BYTES,
            default_page_size: 1000,
            max_page_size: 1000,
            no_referrers: false,
            no_pull_counts: false,
            auth: AuthMode::Open,
            read_apikey: None,
            write_apikey: None,
        }
    }
}

/// Why the auth arguments contradict each other, if they do.
pub open spec fn contradiction(
    mode: AuthMode,
    read: Option<Seq<char>>,
    write: Option<Seq<char>>,
) -> Option<Seq<char>> {
    match mode {
        AuthMode::Open => if read is Some || write is Some {
            Some("an API key was supplied but --auth is `none`; pass `--auth write` (SUMM_AUTH=write) for anonymous pull and keyed push, or `--auth all` to require a key for reads as well"@)
        } else {
            None
        },
        AuthMode::Write => if read is Some {
            Some("a read API key was supplied but --auth is `write`, which serves every read anonymously; pass `--auth all` (SUMM_AUTH=all) to require a key for reads too"@)
        } else if auth::supplied_blank(write) {
            Some(auth::empty_key_message("write"@))
        } else {
            None
        },
        AuthMode::All => if auth::supplied_blank(read) {
            Some(auth::empty_key_message("read"@))
        } else if auth::supplied_blank(write) {
            Some(auth::empty_key_message("write"@))
        } else {
            None
        },
    }
}

/// `policy` is the one the auth arguments ask for, and `generated` tells which
/// of its keys were invented.
pub open spec fn policy_for(
    mode: AuthMode,
    read: Option<Seq<char>>,
    write: Option<Seq<char>>,
    policy: AuthPolicyView,
    generated: Option<Generated>,
) -> bool {
    match mode {
        AuthMode::Open => policy is Open && generated is None,
        AuthMode::Write => {
            &&& policy matches AuthPolicyView::PublicPull { write: key }
            &&& auth::key_from(write, key)
            &&& generated == Some(Generated { read: false, write: write is None })
        },
        AuthMode::All => {
            &&& policy matches AuthPolicyView::Private { read: read_key, write: write_key }
            &&& auth::key_from(read, read_key)
            &&& auth::key_from(write, write_key)
            &&& generated == Some(Generated { read: read is None, write: write is None })
        },
    }
}

/// A copy of an optional string.
fn copied(o: &Option<String>) -> (r: Option<String>)
    ensures
        text::opt_text(r) == text::opt_text(*o),
        r is Some <==> o is Some,
{
    match o {
        Some(s) => Some(text::copy(s.as_str())),
        None => None,
    }
}

impl ServeArgs {
    /// The ops layer's own limits, which are not the HTTP layer's.
    ///
    /// `max_manifest_bytes` appears in both on purpose and is the same number:
    /// the handler's copy decides a `413` before the body is read, and the ops
    /// layer's is the backstop for any caller that did not come through HTTP.
    pub fn registry_options(&self) -> (r: RegistryOptions)
        ensures
            r == (RegistryOptions {
                validate_references: !self.allow_missing_references,
                max_manifest_bytes: self.max_manifest_bytes,
            }),
    {
        RegistryOptions {
            validate_references: !self.allow_missing_references,
            max_manifest_bytes: self.max_manifest_bytes,
        }
    }

    /// The HTTP layer's configuration, plus which API keys had to be invented.
    ///
    /// Fallible because the auth arguments can contradict each other, and the
    /// contradiction has to be fatal: a key supplied to a mode that does not
    /// require it is somebody who believes they have locked something.
    pub fn server_config(&self) -> (r: Result<(ServerConfig, Option<Generated>), String>)
        ensures
            match r {
                Err(e) => contradiction(
                    self.auth,
                    text::opt_text(self.read_apikey),
                    text::opt_text(self.write_apikey),
                ) == Some(e@),
                Ok((config, generated)) => {
                    &&& contradiction(
                        self.auth,
                        text::opt_text(self.read_apikey),
                        text::opt_text(self.write_apikey),
                    ) is None
                    &&& policy_for(
                        self.auth,
                        text::opt_text(self.read_apikey),
                        text::opt_text(self.write_apikey),
                        config.auth@,
                        generated,
                    )
                    &&& config.max_manifest_bytes == self.max_manifest_bytes
                    &&& config.max_upload_bytes == (if self.max_upload_bytes > 0 {
                        Some(self.max_upload_bytes)
                    } else {
                        None
                    })
                    &&& config.default_page_size == self.default_page_size
                    &&& config.max_page_size == self.max_page_size
                    &&& config.max_tag_params == 32
                    &&& config.chunk_min_length is None
                    &&& config.referrers_enabled == !self.no_referrers
                },
            },
    {
        let (policy, generated): (AuthPolicy, Option<Generated>) = match self.auth {
            AuthMode::Open => {
                if self.read_apikey.is_some() || self.write_apikey.is_some() {
                    return Err(
                        text::copy(
                            "an API key was supplied but --auth is `none`; pass `--auth write` (SUMM_AUTH=write) for anonymous pull and keyed push, or `--auth all` to require a key for reads as well",
                        ),
                    );
                }
                (AuthPolicy::Open, None)
            },
            AuthMode::Write => {
                if self.read_apikey.is_some() {
                    return Err(
                        text::copy(
                            "a read API key was supplied but --auth is `write`, which serves every read anonymously; pass `--auth all` (SUMM_AUTH=all) to require a key for reads too",
                        ),
                    );
                }
                match AuthPolicy::for_public_pull(copied(&self.write_apikey)) {
                    Ok((policy, generated)) => (policy, Some(generated)),
                    Err(e) => return Err(e),
                }
            },
            AuthMode::All => {
                match AuthPolicy::for_private(copied(&self.read_apikey), copied(&self.write_apikey)) {
                    Ok((policy, generated)) => (policy, Some(generated)),
                    Err(e) => return Err(e),
                }
            },
        };
        // Zero is "no ceiling" rather than "accept nothing": a limit flag is
        // set to zero by someone turning the limit off.
        let max_upload_bytes: Option<u64> = if self.max_upload_bytes > 0 {
            Some(self.max_upload_bytes)
        } else {
            None
        };
        let config = ServerConfig {
            max_manifest_bytes: self.max_manifest_bytes,
            max_upload_bytes,
            default_page_size: self.default_page_size,
            max_page_size: self.max_page_size,
            referrers_enabled: !self.no_referrers,
            auth: policy,
            ..ServerConfig::default()
        };
        Ok((config, generated))
    }
}

/// A configuration that starts guards exactly what its mode says: a key that
/// was supplied is never ignored, and a mode is never more open than asked.
pub proof fn law_supplied_keys_are_used(
    mode: AuthMode,
    read: Option<Seq<char>>,
    write: Option<Seq<char>>,
    policy: AuthPolicyView,
    generated: Option<Generated>,
)
    requires
        contradiction(mode, read, write) is None,
        policy_for(mode, read, write, policy, generated),
    ensures
        policy is Open <==> mode == AuthMode::Open,
        policy is PublicPull <==> mode == AuthMode::Write,
        policy is Private <==> mode == AuthMode::All,
        read matches Some(key) ==> auth::read_key(policy) == Some(key),
        write matches Some(key) ==> auth::write_key(policy) == Some(key),
{
}

/// No guarded configuration starts with an empty key: every key it holds was
/// supplied with something in it, or was generated.
pub proof fn law_no_empty_key_starts(
    mode: AuthMode,
    read: Option<Seq<char>>,
    write: Option<Seq<char>>,
    policy: AuthPolicyView,
    generated: Option<Generated>,
)
    requires
        contradiction(mode, read, write) is None,
        policy_for(mode, read, write, policy, generated),
    ensures
        auth::read_key(policy) matches Some(key) ==> key.len() > 0,
        auth::write_key(policy) matches Some(key) ==> key.len() > 0,
{
    lemma_blank_empty();
    if auth::read_key(policy) is Some && read is None {
        auth::lemma_generated(auth::read_key(policy)->0);
    }
    if auth::write_key(policy) is Some && write is None {
        auth::lemma_generated(auth::write_key(policy)->0);
    }
}

proof fn lemma_blank_empty()
    ensures
        auth::is_blank(Seq::<char>::empty()),
        forall|key: Seq<char>| #[trigger] key.len() == 0 ==> auth::is_blank(key),
{
    assert forall|key: Seq<char>| #[trigger] key.len() == 0 implies auth::is_blank(key) by {
        assert(key =~= Seq::<char>::empty());
    }
}

/// The words of a mode: how many requests need a key, or how open the registry then
/// is; no other word names one.
pub proof fn law_modes_are_named(word: Seq<char>)
    ensures
        mode_named(word) == Some(AuthMode::Open) <==> word == "none"@ || word == "open"@,
        mode_named(word) == Some(AuthMode::Write) <==> word == "write"@ || word == "public-pull"@,
        mode_named(word) == Some(AuthMode::All) <==> word == "all"@ || word == "private"@,
{
    reveal_strlit("none");
    reveal_strlit("open");
    reveal_strlit("write");
    reveal_strlit("public-pull");
    reveal_strlit("all");
    reveal_strlit("private");
    assert("none"@.len() == 4 && "open"@.len() == 4 && "write"@.len() == 5 && "public-pull"@.len()
        == 11 && "all"@.len() == 3 && "private"@.len() == 7);
}

/// A server starts exactly where its auth arguments agree: no key without a mode
/// that needs it, no read key where reads need none, and no blank key.
pub proof fn law_only_consistent_arguments_start(
    args: ServeArgs,
    r: Result<(ServerConfig, Option<Generated>), String>,
)
    requires
        call_ensures(ServeArgs::server_config, (&args,), r),
    ensures
        r is Err <==> match args.auth {
            AuthMode::Open => args.read_apikey is Some || args.write_apikey is Some,
            AuthMode::Write => args.read_apikey is Some || (args.write_apikey is Some && text::trim(
                args.write_apikey->0@,
            ).len() == 0),
            AuthMode::All => (args.read_apikey is Some && text::trim(args.read_apikey->0@).len()
                == 0) || (args.write_apikey is Some && text::trim(args.write_apikey->0@).len() == 0),
        },
{
}

/// A server runs under what it was started with: its limits, its page sizes and its
/// switches, with zero for no ceiling on an upload, the mode that was asked for, the
/// keys that were supplied, and word of those that were made up.
pub proof fn law_server_runs_as_it_was_started(
    args: ServeArgs,
    config: ServerConfig,
    generated: Option<Generated>,
    options: RegistryOptions,
)
    requires
        call_ensures(ServeArgs::server_config, (&args,), Ok((config, generated))),
        call_ensures(ServeArgs::registry_options, (&args,), options),
    ensures
        config.max_manifest_bytes == args.max_manifest_bytes,
        args.max_upload_bytes == 0 ==> config.max_upload_bytes is None,
        args.max_upload_bytes > 0 ==> config.max_upload_bytes == Some(args.max_upload_bytes),
        config.default_page_size == args.default_page_size,
        config.max_page_size == args.max_page_size,
        config.referrers_enabled <==> !args.no_referrers,
        config.auth@ is Open <==> args.auth == AuthMode::Open,
        config.auth@ is PublicPull <==> args.auth == AuthMode::Write,
        config.auth@ is Private <==> args.auth == AuthMode::All,
        args.read_apikey is Some ==> auth::read_key(config.auth@) == Some(args.read_apikey->0@),
        args.write_apikey is Some ==> auth::write_key(config.auth@) == Some(args.write_apikey->0@),
        generated is None <==> args.auth == AuthMode::Open,
        generated matches Some(g) ==> {
            &&& g.read <==> args.auth == AuthMode::All && args.read_apikey is None
            &&& g.write <==> args.write_apikey is None
        },
        options.validate_references <==> !args.allow_missing_references,
        options.max_manifest_bytes == args.max_manifest_bytes,
{
    assert(contradiction(
        args.auth,
        text::opt_text(args.read_apikey),
        text::opt_text(args.write_apikey),
    ) is None);
}

/// Unless it is told otherwise a server listens on this machine alone, keeps what it
/// is given to eight mebibytes of manifest and thirty-two gibibytes of upload, lists
/// a thousand rows at most, serves referrers, counts pulls, wants every reference
/// present and asks for no key.
pub proof fn law_defaults(args: ServeArgs, config: ServerConfig)
    requires
        call_ensures(ServeArgs::default, (), args),
        call_ensures(ServerConfig::default, (), config),
    ensures
        args.listen@ == "127.0.0.1:3110"@,
        args.data_dir@ == "./data"@,
        args.engine == Engine::Rocks,
        !args.allow_missing_references,
        args.max_manifest_bytes == 8_388_608,
        args.max_upload_bytes == 34_359_738_368,
        args.default_page_size == 1000 && args.max_page_size == 1000,
        !args.no_referrers && !args.no_pull_counts,
        args.auth == AuthMode::Open && args.read_apikey is None && args.write_apikey is None,
        config.max_manifest_bytes == args.max_manifest_bytes,
        config.max_upload_bytes == Some(args.max_upload_bytes),
        config.default_page_size == 1000 && config.max_page_size == 1000,
        config.max_tag_params == 32,
        config.chunk_min_length is None,
        config.referrers_enabled,
        config.auth@ is Open,
{
}

} // verus!
