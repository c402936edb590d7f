//! The assistant's brain cascade (local codebook, desktop PC, cloud,
//! remote API) and the file layout of codebook files.

use vstd::prelude::*;
use vstd::string::*;

use crate::text::{ends_with, nat_decimal, push_decimal, starts_with, str_ends_with, str_starts_with};

verus! {

/// A tier of the brain cascade.
#[derive(Debug, Clone, Copy, PartialEq, Eq, Structural)]
pub enum BrainTier {
    /// Local codebook on the Pi (always available)
    PiCodebook,
    /// Desktop PC woken over the network
    LocalPc,
    /// Cloud deployment
    Railway,
    /// Remote API, the last resort that needs the internet
    GrokApi,
}

impl BrainTier {
    pub open spec fn spec_tok_per_sec(self) -> u32 {
        match self {
            BrainTier::PiCodebook => 2_000,
            BrainTier::LocalPc => 30_000,
            BrainTier::Railway => 50_000,
            BrainTier::GrokApi => 100_000,
        }
    }

    /// Estimated tokens per second of this tier.
    pub fn estimated_tok_per_sec(&self) -> (r: u32)
        ensures
            r == self.spec_tok_per_sec(),
    {
        match self {
            BrainTier::PiCodebook => 2_000,
            BrainTier::LocalPc => 30_000,
            BrainTier::Railway => 50_000,
            BrainTier::GrokApi => 100_000,
        }
    }

    /// Whether this tier needs the network: the cloud and the remote API.
    pub fn requires_network(&self) -> (b: bool)
        ensures
            b == (*self is Railway || *self is GrokApi),
    {
        match self {
            BrainTier::Railway | BrainTier::GrokApi => true,
            _ => false,
        }
    }
}

/// Which tiers are reachable, and the tier in use.
#[derive(Debug, Clone, Copy)]
pub struct CascadeStatus {
    pub active_tier: BrainTier,
    pub pi_available: bool,
    pub pc_available: bool,
    pub railway_available: bool,
    pub grok_available: bool,
}

impl Default for CascadeStatus {
    /// Only the local codebook, which is in use.
    fn default() -> (r: Self)
        ensures
            r.active_tier == BrainTier::PiCodebook,
            r.pi_available,
            !r.pc_available,
            !r.railway_available,
            !r.grok_available,
    {
        CascadeStatus {
            active_tier: BrainTier::PiCodebook,
            pi_available: true,
            pc_available: false,
            railway_available: false,
            grok_available: false,
        }
    }
}

/// The tier chosen for a status: the first reachable of PC, cloud and
/// remote API, else the local codebook.
pub open spec fn spec_select_tier(status: CascadeStatus) -> BrainTier {
    if status.pc_available {
        BrainTier::LocalPc
    } else if status.railway_available {
        BrainTier::Railway
    } else if status.grok_available {
        BrainTier::GrokApi
    } else {
        BrainTier::PiCodebook
    }
}

/// Selects the best reachable tier, falling back to the local codebook.
pub fn select_tier(status: &CascadeStatus) -> (r: BrainTier)
    ensures
        r == spec_select_tier(*status),
{
    if status.pc_available {
        return BrainTier::LocalPc;
    }
    if status.railway_available {
        return BrainTier::Railway;
    }
    if status.grok_available {
        return BrainTier::GrokApi;
    }
    BrainTier::PiCodebook
}

/// Whatever the status, the chosen tier is never slower than the local
/// codebook, and a tier is chosen over the local codebook only when it is
/// reachable.
pub proof fn law_select_tier_reachable(status: CascadeStatus)
    ensures
        spec_select_tier(status).spec_tok_per_sec() >= BrainTier::PiCodebook.spec_tok_per_sec(),
        spec_select_tier(status) is LocalPc ==> status.pc_available,
        spec_select_tier(status) is Railway ==> status.railway_available,
        spec_select_tier(status) is GrokApi ==> status.grok_available,
        !status.pc_available && !status.railway_available && !status.grok_available
            ==> spec_select_tier(status) is PiCodebook,
{
}

// ---------------------------------------------------------------------------
// Codebook files
// ---------------------------------------------------------------------------

/// Number of centroids in a codebook (one per 8-bit index).
pub const NUM_CENTROIDS: usize = 256;

/// `Path::join` of a base directory and a file name (separator `/`): a
/// name that starts at the root replaces the base; otherwise a `/` goes
/// between them unless the base is empty or already ends in one.
pub open spec fn spec_join_path(base: Seq<char>, name: Seq<char>) -> Seq<char> {
    if starts_with(name, "/"@) {
        name
    } else if base.len() == 0 || ends_with(base, "/"@) {
        base + name
    } else {
        base + "/"@ + name
    }
}

/// Where codebook files are read from.
#[derive(Debug, Clone)]
pub struct CodebookLoader {
    base_path: String,
}

/// How a codebook file is used, given whether it exists and its size.
#[derive(Debug, Clone, Copy, PartialEq, Eq, Structural)]
pub enum CodebookSource {
    /// Use an all-zero codebook
    Dummy,
    /// Read the first `bytes` bytes as little-endian `f32` centroids
    Raw { bytes: usize },
}

impl CodebookLoader {
    pub closed spec fn base(self) -> Seq<char> {
        self.base_path@
    }

    pub fn new(base_path: &str) -> (r: Self)
        ensures
            r.base() == base_path@,
    {
        CodebookLoader { base_path: String::from_str(base_path) }
    }

    /// The loader for the Pi's codebook directory.
    pub fn pi_default() -> (r: Self)
        ensures
            r.base() == "/opt/pi-audio/codebook"@,
    {
        CodebookLoader::new("/opt/pi-audio/codebook")
    }

    /// Path of the codebook `name`: `<base>/<name>.bgz`.
    pub fn codebook_path(&self, name: &str) -> (r: String)
        ensures
            r@ == spec_join_path(self.base(), name@ + ".bgz"@),
    {
        let mut file = String::from_str(name);
        file.append(".bgz");
        if str_starts_with(file.as_str(), "/") {
            return file;
        }
        let mut out = String::from_str(self.base_path.as_str());
        if self.base_path.unicode_len() == 0 || str_ends_with(self.base_path.as_str(), "/") {
            out.append(file.as_str());
        } else {
            out.append("/");
            out.append(file.as_str());
        }
        out
    }
}

/// Byte size of the centroids of a codebook of dimension `dim`
/// (256 centroids of `dim` four-byte floats).
pub open spec fn spec_codebook_bytes(dim: int) -> int {
    NUM_CENTROIDS * dim * 4
}

/// How to load a codebook: a missing file, or one shorter than the
/// centroids need, gives the all-zero codebook; otherwise the leading
/// centroid bytes are read.
pub fn codebook_source(exists: bool, file_len: usize, dim: usize) -> (r: CodebookSource)
    requires
        spec_codebook_bytes(dim as int) <= usize::MAX,
    ensures
        r == (if exists && file_len >= spec_codebook_bytes(dim as int) {
            CodebookSource::Raw { bytes: spec_codebook_bytes(dim as int) as usize }
        } else {
            CodebookSource::Dummy
        }),
{
    if !exists {
        return CodebookSource::Dummy;
    }
    let expected = NUM_CENTROIDS * dim * 4;
    if file_len >= expected {
        CodebookSource::Raw { bytes: expected }
    } else {
        CodebookSource::Dummy
    }
}

/// The six matrices of a transformer layer, in loading order.
pub open spec fn layer_suffixes() -> Seq<Seq<char>> {
    seq!["q"@, "k"@, "v"@, "gate"@, "up"@, "down"@]
}

/// Name of one codebook of layer `layer`: `layer<layer>_<suffix>`.
pub open spec fn spec_layer_codebook_name(layer: nat, suffix: Seq<char>) -> Seq<char> {
    "layer"@ + nat_decimal(layer) + "_"@ + suffix
}

fn layer_codebook_name(layer_idx: usize, suffix: &str) -> (r: String)
    ensures
        r@ == spec_layer_codebook_name(layer_idx as nat, suffix@),
{
    let mut s = String::from_str("layer");
    push_decimal(&mut s, layer_idx as u128);
    s.append("_");
    s.append(suffix);
    s
}

/// Names of the six codebooks of a layer (Q, K, V, gate, up, down).
pub fn layer_codebook_names(layer_idx: usize) -> (r: Vec<String>)
    ensures
        r.len() == 6,
        forall|i: int|
            0 <= i < 6 ==> (#[trigger] r@[i])@ == spec_layer_codebook_name(layer_idx as nat, layer_suffixes()[i]),
{
    let mut v: Vec<String> = Vec::new();
    v.push(layer_codebook_name(layer_idx, "q"));
    v.push(layer_codebook_name(layer_idx, "k"));
    v.push(layer_codebook_name(layer_idx, "v"));
    v.push(layer_codebook_name(layer_idx, "gate"));
    v.push(layer_codebook_name(layer_idx, "up"));
    v.push(layer_codebook_name(layer_idx, "down"));
    v
}

} // verus!
