//! Configuration sections and their default values.
//!
//! Paths are held as text (`String`), the library's model of a file path.
use crate::text::{owned, strings_of, str_views, views};
use crate::types::{AiProvider, DupAction, KeepStrategy, LinkMode, OrganizeMode};
use vstd::prelude::*;

verus! {

/// `[general]`
#[derive(Debug, Clone)]
pub struct GeneralConfig {
    pub dry_run: bool,
    pub confirm: bool,
    pub operation_log: bool,
    pub log_level: String,
}

/// `[scan]`
#[derive(Debug, Clone)]
pub struct ScanConfig {
    pub max_depth: usize,
    pub follow_symlinks: bool,
    pub exclude_dirs: Vec<String>,
    pub min_file_size: u64,
    pub keyword_filter: Vec<String>,
}

/// `[ai]`
#[derive(Debug, Clone)]
pub struct AiConfig {
    pub enabled: bool,
    pub provider: AiProvider,
    pub deepseek: DeepSeekConfig,
    pub cloudflare: CloudflareConfig,
    pub custom: CustomAiConfig,
    pub embedding_provider: AiProvider,
    pub embedding_model: String,
    pub concurrency: usize,
}

/// `[ai.deepseek]`
#[derive(Debug, Clone)]
pub struct DeepSeekConfig {
    pub url: String,
    pub key: String,
    pub model: String,
}

/// `[ai.cloudflare]`
#[derive(Debug, Clone)]
pub struct CloudflareConfig {
    pub url: String,
    pub api_token: String,
    pub model: String,
}

/// `[ai.custom]`
#[derive(Debug, Clone)]
pub struct CustomAiConfig {
    pub url: String,
    pub key: String,
    pub model: String,
}

/// `[api]`
#[derive(Debug, Clone)]
pub struct ApiConfig {
    pub tmdb_key: String,
    pub musicbrainz_user_agent: String,
}

/// `[scrape]`
#[derive(Debug, Clone)]
pub struct ScrapeConfig {
    pub fallback_chain: Vec<String>,
    pub chinese_title_priority: bool,
    pub with_nfo: bool,
    pub with_images: bool,
}

/// `[dedup]`
#[derive(Debug, Clone)]
pub struct DedupConfig {
    pub hash_algorithm: String,
    pub keep_strategy: KeepStrategy,
    pub duplicate_action: DupAction,
    pub move_target: String,
}

/// `[rename]`
#[derive(Debug, Clone)]
pub struct RenameConfig {
    pub movie_template: String,
    pub tv_template: String,
    pub music_template: String,
    pub novel_template: String,
    pub preserve_media_suffix: bool,
    pub season_offset: i32,
    pub rename_subtitles: bool,
}

/// `[organize]`
#[derive(Debug, Clone)]
pub struct OrganizeConfig {
    pub mode: OrganizeMode,
    pub root: String,
    pub link_mode: LinkMode,
    pub with_nfo: bool,
    pub with_images: bool,
    pub cleanup_empty_dirs: bool,
}

/// `[cache]`
#[derive(Debug, Clone)]
pub struct CacheConfig {
    pub path: String,
    pub ttl_days: u64,
}

// --- Default values ---

pub open spec fn exclude_dirs_spec() -> Seq<Seq<char>> {
    seq![
        ".git"@,
        ".DS_Store"@,
        "Thumbs.db"@,
        "__MACOSX"@,
        "Library"@,
        ".Trash"@,
        ".cache"@,
        ".npm"@,
        ".cargo"@,
        ".rustup"@,
        "node_modules"@,
    ]
}

pub open spec fn fallback_chain_spec() -> Seq<Seq<char>> {
    seq!["local"@, "tmdb"@, "musicbrainz"@, "ai"@, "guess"@]
}

/// Default of the switches that are on unless configured off.
pub fn default_true() -> (r: bool)
    ensures
        r,
{
    true
}

/// Default log level.
pub fn default_log_level() -> (r: String)
    ensures
        r@ == "info"@,
{
    owned("info")
}

/// Default depth of a scan.
pub fn default_max_depth() -> (r: usize)
    ensures
        r == 10,
{
    10
}

/// One megabyte.
pub fn default_min_file_size() -> (r: u64)
    ensures
        r == 1_048_576,
{
    1_048_576
}

/// Directories a scan skips by default.
pub fn default_exclude_dirs() -> (r: Vec<String>)
    ensures
        views(r@) == exclude_dirs_spec(),
{
    let lits: [&str; 11] = [
        ".git",
        ".DS_Store",
        "Thumbs.db",
        "__MACOSX",
        "Library",
        ".Trash",
        ".cache",
        ".npm",
        ".cargo",
        ".rustup",
        "node_modules",
    ];
    let r = strings_of(&lits);
    assert(str_views(lits@) =~= exclude_dirs_spec());
    r
}

/// Default AI provider.
pub fn default_ai_provider() -> (r: AiProvider)
    ensures
        r == AiProvider::DeepSeek,
{
    AiProvider::DeepSeek
}

/// Default DeepSeek endpoint.
pub fn default_deepseek_url() -> (r: String)
    ensures
        r@ == "https://api.deepseek.com/v1"@,
{
    owned("https://api.deepseek.com/v1")
}

/// Default DeepSeek model.
pub fn default_deepseek_model() -> (r: String)
    ensures
        r@ == "deepseek-chat"@,
{
    owned("deepseek-chat")
}

/// Default DeepSeek settings (no key).
pub fn default_deepseek() -> (r: DeepSeekConfig)
    ensures
        r.url@ == "https://api.deepseek.com/v1"@,
        r.key@ == Seq::<char>::empty(),
        r.model@ == "deepseek-chat"@,
{
    DeepSeekConfig { url: default_deepseek_url(), key: String::new(), model: default_deepseek_model() }
}

/// Default Cloudflare Workers AI endpoint, with the account to fill in.
pub fn default_cf_url() -> (r: String)
    ensures
        r@ == "https://api.cloudflare.com/client/v4/accounts/{account_id}/ai"@,
{
    owned("https://api.cloudflare.com/client/v4/accounts/{account_id}/ai")
}

/// Default Cloudflare Workers AI model.
pub fn default_cf_model() -> (r: String)
    ensures
        r@ == "@cf/meta/llama-3.1-8b-instruct"@,
{
    owned("@cf/meta/llama-3.1-8b-instruct")
}

/// Default Cloudflare settings (no token).
pub fn default_cloudflare() -> (r: CloudflareConfig)
    ensures
        r.url@ == "https://api.cloudflare.com/client/v4/accounts/{account_id}/ai"@,
        r.api_token@ == Seq::<char>::empty(),
        r.model@ == "@cf/meta/llama-3.1-8b-instruct"@,
{
    CloudflareConfig { url: default_cf_url(), api_token: String::new(), model: default_cf_model() }
}

/// Default number of concurrent scrapes.
pub fn default_concurrency() -> (r: usize)
    ensures
        r == 3,
{
    3
}

/// Default order of the scrape sources.
pub fn default_fallback_chain() -> (r: Vec<String>)
    ensures
        views(r@) == fallback_chain_spec(),
{
    let lits: [&str; 5] = ["local", "tmdb", "musicbrainz", "ai", "guess"];
    let r = strings_of(&lits);
    assert(str_views(lits@) =~= fallback_chain_spec());
    r
}

/// Default hash algorithm name.
pub fn default_hash_algo() -> (r: String)
    ensures
        r@ == "xxhash"@,
{
    owned("xxhash")
}

/// Default deduplication keep strategy.
pub fn default_keep_strategy() -> (r: KeepStrategy)
    ensures
        r == KeepStrategy::HighestQuality,
{
    KeepStrategy::HighestQuality
}

/// Default action on dropped duplicates.
pub fn default_dup_action() -> (r: DupAction)
    ensures
        r == DupAction::Trash,
{
    DupAction::Trash
}

/// Default movie rename template.
pub fn default_movie_template() -> (r: String)
    ensures
        r@ == "{{title}}{{year}} - {{media_suffix}}"@,
{
    owned("{{title}}{{year}} - {{media_suffix}}")
}

/// Default episode rename template.
pub fn default_tv_template() -> (r: String)
    ensures
        r@ == "{{title}} - S{{season}}E{{episode}} - {{episode_name}}"@,
{
    owned("{{title}} - S{{season}}E{{episode}} - {{episode_name}}")
}

/// Default music rename template.
pub fn default_music_template() -> (r: String)
    ensures
        r@ == "{{artist}} - {{album}} - {{title}}"@,
{
    owned("{{artist}} - {{album}} - {{title}}")
}

/// Default book rename template.
pub fn default_novel_template() -> (r: String)
    ensures
        r@ == "{{author}} - {{title}}"@,
{
    owned("{{author}} - {{title}}")
}

/// Default organize mode.
pub fn default_organize_mode() -> (r: OrganizeMode)
    ensures
        r == OrganizeMode::Archive,
{
    OrganizeMode::Archive
}

/// Default link mode (move the files).
pub fn default_link_mode() -> (r: LinkMode)
    ensures
        r == LinkMode::NoLink,
{
    LinkMode::NoLink
}

/// Default time to live of cache entries, in days.
pub fn default_ttl() -> (r: u64)
    ensures
        r == 90,
{
    90
}

impl Default for GeneralConfig {
    fn default() -> (r: Self)
        ensures
            r.dry_run,
            r.confirm,
            r.operation_log,
            r.log_level@ == "info"@,
    {
        GeneralConfig { dry_run: true, confirm: true, operation_log: true, log_level: default_log_level() }
    }
}

impl Default for ScanConfig {
    fn default() -> (r: Self)
        ensures
            r.max_depth == 10,
            !r.follow_symlinks,
            views(r.exclude_dirs@) == exclude_dirs_spec(),
            r.min_file_size == 1_048_576,
            r.keyword_filter@.len() == 0,
    {
        ScanConfig {
            max_depth: default_max_depth(),
            follow_symlinks: false,
            exclude_dirs: default_exclude_dirs(),
            min_file_size: default_min_file_size(),
            keyword_filter: Vec::new(),
        }
    }
}

impl Default for CustomAiConfig {
    fn default() -> (r: Self)
        ensures
            r.url@.len() == 0,
            r.key@.len() == 0,
            r.model@.len() == 0,
    {
        CustomAiConfig { url: String::new(), key: String::new(), model: String::new() }
    }
}

impl Default for AiConfig {
    fn default() -> (r: Self)
        ensures
            r.enabled,
            r.provider == AiProvider::DeepSeek,
            r.deepseek.url@ == "https://api.deepseek.com/v1"@,
            r.deepseek.key@.len() == 0,
            r.deepseek.model@ == "deepseek-chat"@,
            r.cloudflare.url@ == "https://api.cloudflare.com/client/v4/accounts/{account_id}/ai"@,
            r.cloudflare.api_token@.len() == 0,
            r.cloudflare.model@ == "@cf/meta/llama-3.1-8b-instruct"@,
            r.custom.url@.len() == 0,
            r.custom.key@.len() == 0,
            r.custom.model@.len() == 0,
            r.embedding_provider == AiProvider::DeepSeek,
            r.embedding_model@.len() == 0,
            r.concurrency == 3,
    {
        AiConfig {
            enabled: true,
            provider: default_ai_provider(),
            deepseek: default_deepseek(),
            cloudflare: default_cloudflare(),
            custom: CustomAiConfig::default(),
            embedding_provider: default_ai_provider(),
            embedding_model: String::new(),
            concurrency: default_concurrency(),
        }
    }
}

impl Default for ApiConfig {
    fn default() -> (r: Self)
        ensures
            r.tmdb_key@.len() == 0,
            r.musicbrainz_user_agent@.len() == 0,
    {
        ApiConfig { tmdb_key: String::new(), musicbrainz_user_agent: String::new() }
    }
}

impl Default for ScrapeConfig {
    fn default() -> (r: Self)
        ensures
            views(r.fallback_chain@) == fallback_chain_spec(),
            r.chinese_title_priority,
            !r.with_nfo,
            !r.with_images,
    {
        ScrapeConfig {
            fallback_chain: default_fallback_chain(),
            chinese_title_priority: true,
            with_nfo: false,
            with_images: false,
        }
    }
}

impl Default for DedupConfig {
    fn default() -> (r: Self)
        ensures
            r.hash_algorithm@ == "xxhash"@,
            r.keep_strategy == KeepStrategy::HighestQuality,
            r.duplicate_action == DupAction::Trash,
            r.move_target@.len() == 0,
    {
        DedupConfig {
            hash_algorithm: default_hash_algo(),
            keep_strategy: default_keep_strategy(),
            duplicate_action: default_dup_action(),
            move_target: String::new(),
        }
    }
}

impl Default for RenameConfig {
    fn default() -> (r: Self)
        ensures
            r.movie_template@ == "{{title}}{{year}} - {{media_suffix}}"@,
            r.tv_template@ == "{{title}} - S{{season}}E{{episode}} - {{episode_name}}"@,
            r.music_template@ == "{{artist}} - {{album}} - {{title}}"@,
            r.novel_template@ == "{{author}} - {{title}}"@,
            r.preserve_media_suffix,
            r.season_offset == 0,
            r.rename_subtitles,
    {
        RenameConfig {
            movie_template: default_movie_template(),
            tv_template: default_tv_template(),
            music_template: default_music_template(),
            novel_template: default_novel_template(),
            preserve_media_suffix: true,
            season_offset: 0,
            rename_subtitles: true,
        }
    }
}

impl Default for OrganizeConfig {
    fn default() -> (r: Self)
        ensures
            r.mode == OrganizeMode::Archive,
            r.root@.len() == 0,
            r.link_mode == LinkMode::NoLink,
            !r.with_nfo,
            !r.with_images,
            r.cleanup_empty_dirs,
    {
        OrganizeConfig {
            mode: default_organize_mode(),
            root: String::new(),
            link_mode: default_link_mode(),
            with_nfo: false,
            with_images: false,
            cleanup_empty_dirs: true,
        }
    }
}

impl Default for CacheConfig {
    fn default() -> (r: Self)
        ensures
            r.path@.len() == 0,
            r.ttl_days == 90,
    {
        CacheConfig { path: String::new(), ttl_days: default_ttl() }
    }
}

} // verus!
