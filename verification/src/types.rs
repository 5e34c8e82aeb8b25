//! Enumerations shared across the library.
use vstd::prelude::*;

verus! {

/// Which copy a duplicate group keeps.
#[derive(Debug, Clone, Copy, PartialEq, Eq, Structural)]
pub enum KeepStrategy {
    HighestQuality,
    Newest,
    Largest,
    Manual,
}

/// What happens to the copies a duplicate group drops.
#[derive(Debug, Clone, Copy, PartialEq, Eq, Structural)]
pub enum DupAction {
    Trash,
    Move,
    Report,
}

/// How `organize` lays files out.
#[derive(Debug, Clone, Copy, PartialEq, Eq, Structural)]
pub enum OrganizeMode {
    Rename,
    Archive,
    Local,
}

/// How a file reaches its target: moved/copied, hard link or symbolic link.
#[derive(Debug, Clone, Copy, PartialEq, Eq, Structural)]
pub enum LinkMode {
    NoLink,
    Hard,
    Sym,
}

/// AI back end.
#[derive(Debug, Clone, Copy, PartialEq, Eq, Structural)]
pub enum AiProvider {
    DeepSeek,
    Cloudflare,
    Custom,
}

/// Kind of media a file holds.
#[derive(Debug, Clone, Copy, PartialEq, Eq, Hash, Structural)]
pub enum MediaType {
    Movie,
    TvShow,
    Music,
    Novel,
    Strm,
    Unknown,
}

/// Where a chosen metadata value came from.
#[derive(Debug, Clone, Copy, PartialEq, Eq, Structural)]
pub enum MetadataOrigin {
    Parsed,
    Scraped,
}

/// How a file name was understood.
#[derive(Debug, Clone, Copy, PartialEq, Eq, Structural)]
pub enum ParseSource {
    Regex,
    AiAssist,
    Context,
}

/// Which prober measured a file.
#[derive(Debug, Clone, Copy, PartialEq, Eq, Structural)]
pub enum ProbeSource {
    Native,
    Ffprobe,
}

/// Provider of scraped metadata.
#[derive(Debug, Clone, Copy, PartialEq, Eq, Structural)]
pub enum ScrapeSource {
    LocalNfo,
    Tmdb,
    MusicBrainz,
    OpenLibrary,
    AiAssist,
    Guess,
}

/// Where subtitle text was read from.
#[derive(Debug, Clone, Copy, PartialEq, Eq, Structural)]
pub enum SubtitleEvidenceSource {
    ExternalText,
    EmbeddedTrack,
}

/// How firmly an identity was established.
#[derive(Debug, Clone, Copy, PartialEq, Eq, Structural)]
pub enum ConfirmationState {
    Confirmed,
    HighConfidenceCandidate,
    AmbiguousCandidates,
    InsufficientEvidence,
}

/// Kind of duplicate group.
#[derive(Debug, Clone, Copy, PartialEq, Eq, Structural)]
pub enum DuplicateKind {
    Exact,
    Version,
}

/// File operation an organize plan performs.
#[derive(Debug, Clone, Copy, PartialEq, Eq, Structural)]
pub enum OrganizeAction {
    Move,
    Copy,
    HardLink,
    SymLink,
}

/// Outcome of the check made before NFO files or images are saved.
#[derive(Debug, Clone, Copy, PartialEq, Eq, Structural)]
pub enum AssetGateStatus {
    Accepted,
    DisabledByConfig,
    MissingMetadata,
    IdentityUnconfirmed,
    UntrustedSource,
    LowAuthority,
    MissingAssetUrls,
}

/// Tab of the terminal interface.
#[derive(Debug, Clone, Copy, PartialEq, Eq, Structural)]
pub enum Tab {
    Scan,
    Dedup,
    Rename,
    Organize,
}

/// Input mode of the terminal interface.
#[derive(Debug, Clone, Copy, PartialEq, Eq, Structural)]
pub enum Mode {
    Normal,
    Search,
    Confirm,
}

/// Layout of the terminal interface's item list.
#[derive(Debug, Clone, Copy, PartialEq, Eq, Structural)]
pub enum ViewMode {
    Table,
    Tree,
}

/// Batch operation awaiting confirmation in the terminal interface.
#[derive(Debug, Clone, Copy, PartialEq, Eq, Structural)]
pub enum PendingAction {
    Rename,
    Dedup,
    Organize,
}

/// The `Debug` name of a media type (used in cache keys).
pub open spec fn media_type_name_spec(t: MediaType) -> Seq<char> {
    match t {
        MediaType::Movie => "Movie"@,
        MediaType::TvShow => "TvShow"@,
        MediaType::Music => "Music"@,
        MediaType::Novel => "Novel"@,
        MediaType::Strm => "Strm"@,
        MediaType::Unknown => "Unknown"@,
    }
}

/// The name of a media type as it appears in keys.
pub fn media_type_name(t: MediaType) -> (r: &'static str)
    ensures
        r@ == media_type_name_spec(t),
{
    match t {
        MediaType::Movie => "Movie",
        MediaType::TvShow => "TvShow",
        MediaType::Music => "Music",
        MediaType::Novel => "Novel",
        MediaType::Strm => "Strm",
        MediaType::Unknown => "Unknown",
    }
}

} // verus!
