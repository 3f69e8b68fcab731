//! Exact launch provenance: the SHA-256 digests of the canonical serialization
//! of the resolved workflow type and config at launch, plus the config root
//! they were resolved from, and the decision whether a resume may proceed
//! against them.
//!
//! The canonical serialization itself is produced together with the resolved
//! schema types; the functions here take its bytes. The config root is kept
//! as its raw path bytes, encoded as even-length lowercase hex so arbitrary
//! bytes survive a TEXT column.

use vstd::prelude::*;
use vstd::string::*;
use vstd::utf8::{encode_utf8, is_ascii_chars};
use crate::digest::{
    hex_encode, hex_string, sha256_hex, sha256_hex_spec, be_bytes, frame32, push_be,
    push_len_prefixed32, lemma_hex_encode_len, hex_char,
};
use crate::text::{owned, push_str, push_u64, string_eq, decimal};

verus! {

broadcast use vstd::utf8::group_utf8_lib;

/// Current schema version for [`LaunchProvenance`].
pub const LAUNCH_PROVENANCE_SCHEMA_VERSION: u32 = 1;

/// Errors of provenance construction and decoding.
#[derive(Debug, Clone, PartialEq, Eq)]
pub enum LaunchProvenanceError {
    /// The config root could not be canonicalized. Carries the attempted
    /// path (its raw bytes) and the underlying I/O error message.
    Canonicalize { config_root: Vec<u8>, io_error: String },
    /// The persisted config-root encoding is not valid even-length hex.
    InvalidEncoding { encoded: String, reason: &'static str },
}

/// Identifies the migration tool that created a synthetic provenance.
#[derive(Debug, Clone, Copy, PartialEq, Eq)]
pub enum MigrationSource {
    /// Provenance synthesized when publishing the bootstrap marker for a
    /// provenance-less, marker-less legacy row.
    LegacyOwnershipMigration,
}

/// Durable launch provenance.
#[derive(Debug, Clone, PartialEq, Eq)]
pub struct LaunchProvenance {
    /// Schema version of this record.
    pub schema_version: u32,
    /// The canonical config root, hex-encoded raw path bytes.
    pub canonical_config_root: String,
    /// SHA-256 hex digest of the canonical workflow type.
    pub workflow_digest: String,
    /// SHA-256 hex digest of the canonical workflow config.
    pub config_digest: String,
    /// Set when the provenance was synthesized by a schema migration.
    pub migration_source: Option<MigrationSource>,
}

/// The sentinel stored in place of digests of a migrated row.
pub open spec fn migration_sentinel() -> Seq<char> {
    "legacy-migration-sentinel"@
}

impl LaunchProvenance {
    /// Construct a launch provenance from the canonical serializations of the
    /// resolved workflow type and config, the config root as given, and the
    /// outcome of canonicalizing that root (its raw bytes, or the I/O error
    /// message).
    pub fn from_resolved(
        workflow_canonical: &[u8],
        config_canonical: &[u8],
        config_root: &[u8],
        canonical_root: Result<Vec<u8>, String>,
    ) -> (r: Result<Self, LaunchProvenanceError>)
        ensures
            match canonical_root {
                Ok(root) => r matches Ok(p) && p.schema_version == LAUNCH_PROVENANCE_SCHEMA_VERSION
                    && p.canonical_config_root@ == hex_encode(root@)
                    && p.workflow_digest@ == sha256_hex_spec(workflow_canonical@)
                    && p.config_digest@ == sha256_hex_spec(config_canonical@)
                    && p.migration_source is None,
                Err(msg) => r matches Err(LaunchProvenanceError::Canonicalize { config_root: cr, io_error })
                    && cr@ == config_root@ && io_error@ == msg@,
            },
    {
        match canonical_root {
            Ok(root) => {
                let p = LaunchProvenance {
                    schema_version: LAUNCH_PROVENANCE_SCHEMA_VERSION,
                    canonical_config_root: encode_config_root(root.as_slice()),
                    workflow_digest: compute_workflow_digest(workflow_canonical),
                    config_digest: compute_config_digest(config_canonical),
                    migration_source: None,
                };
                Ok(p)
            },
            Err(msg) => {
                Err(LaunchProvenanceError::Canonicalize { config_root: vstd::slice::slice_to_vec(config_root), io_error: msg })
            },
        }
    }

    /// Whether this provenance was produced by the current schema version.
    pub fn schema_is_current(&self) -> (r: bool)
        ensures
            r == (self.schema_version == LAUNCH_PROVENANCE_SCHEMA_VERSION),
    {
        self.schema_version == LAUNCH_PROVENANCE_SCHEMA_VERSION
    }

    /// A synthetic provenance for a schema-migrated legacy row: current schema,
    /// the given root, sentinel digests and the migration tag.
    pub fn migrated(source: MigrationSource, canonical_config_root: String) -> (r: Self)
        ensures
            r.schema_version == LAUNCH_PROVENANCE_SCHEMA_VERSION,
            r.canonical_config_root == canonical_config_root,
            r.workflow_digest@ == migration_sentinel(),
            r.config_digest@ == migration_sentinel(),
            r.migration_source == Some(source),
    {
        LaunchProvenance {
            schema_version: LAUNCH_PROVENANCE_SCHEMA_VERSION,
            canonical_config_root,
            workflow_digest: owned("legacy-migration-sentinel"),
            config_digest: owned("legacy-migration-sentinel"),
            migration_source: Some(source),
        }
    }

    /// Whether this provenance was synthesized by a schema migration.
    pub fn is_migrated(&self) -> (r: bool)
        ensures
            r == (self.migration_source is Some),
    {
        self.migration_source.is_some()
    }
}

/// Encode the raw bytes of a config root as lowercase hex.
pub fn encode_config_root(config_root: &[u8]) -> (r: String)
    ensures
        r@ == hex_encode(config_root@),
{
    hex_string(config_root)
}

/// Whether a byte is an ASCII hex digit (either case).
pub open spec fn is_hex_byte(b: u8) -> bool {
    (48 <= b <= 57) || (97 <= b <= 102) || (65 <= b <= 70)
}

/// The value of an ASCII hex digit.
pub open spec fn nibble_of(b: u8) -> u8 {
    if b <= 57 {
        (b - 48) as u8
    } else if b >= 97 {
        (b - 87) as u8
    } else {
        (b - 55) as u8
    }
}

/// Whether every byte is an ASCII hex digit.
pub open spec fn all_hex(bytes: Seq<u8>) -> bool {
    forall|i: int| 0 <= i < bytes.len() ==> is_hex_byte(#[trigger] bytes[i])
}

/// A valid persisted encoding: non-empty, even length, hex digits only.
pub open spec fn valid_root_encoding(bytes: Seq<u8>) -> bool {
    bytes.len() > 0 && bytes.len() % 2 == 0 && all_hex(bytes)
}

/// Decoding pairs of hex digits, high nibble first.
pub open spec fn hex_decode(bytes: Seq<u8>) -> Seq<u8>
    decreases bytes.len(),
{
    if bytes.len() < 2 {
        Seq::empty()
    } else {
        let n = bytes.len();
        hex_decode(bytes.subrange(0, n - 2)).push(
            (nibble_of(bytes[n - 2]) * 16 + nibble_of(bytes[n - 1])) as u8,
        )
    }
}

/// Why an invalid encoding is refused.
pub open spec fn invalid_root_reason(bytes: Seq<u8>) -> Seq<char> {
    if bytes.len() == 0 {
        "encoding is empty"@
    } else if bytes.len() % 2 != 0 {
        "encoding has odd length (not even hex)"@
    } else {
        "encoding contains a non-hex character"@
    }
}

/// The value of a hex digit, or `None` for any other byte.
fn hex_nibble_checked(byte: u8) -> (r: Option<u8>)
    ensures
        r == (if is_hex_byte(byte) { Some(nibble_of(byte)) } else { None::<u8> }),
{
    if 48 <= byte && byte <= 57 {
        Some(byte - 48)
    } else if 97 <= byte && byte <= 102 {
        Some(byte - 87)
    } else if 65 <= byte && byte <= 70 {
        Some(byte - 55)
    } else {
        None
    }
}

/// The value of a hex digit.
fn hex_nibble(byte: u8) -> (r: u8)
    requires
        is_hex_byte(byte),
    ensures
        r == nibble_of(byte),
        r < 16,
{
    match hex_nibble_checked(byte) {
        Some(v) => v,
        None => 0,
    }
}

fn validate_even_hex(encoded: &str) -> (r: Result<(), LaunchProvenanceError>)
    ensures
        match r {
            Ok(()) => valid_root_encoding(encoded.spec_bytes()),
            Err(LaunchProvenanceError::InvalidEncoding { encoded: e, reason }) => !valid_root_encoding(
                encoded.spec_bytes(),
            ) && e@ == encoded@ && reason@ == invalid_root_reason(encoded.spec_bytes()),
            _ => false,
        },
{
    let bytes = encoded.as_bytes();
    if bytes.len() == 0 {
        return Err(
            LaunchProvenanceError::InvalidEncoding { encoded: encoded.to_owned(), reason: "encoding is empty" },
        );
    }
    if bytes.len() % 2 != 0 {
        return Err(
            LaunchProvenanceError::InvalidEncoding {
                encoded: encoded.to_owned(),
                reason: "encoding has odd length (not even hex)",
            },
        );
    }
    let mut i: usize = 0;
    while i < bytes.len()
        invariant
            bytes@ == encoded.spec_bytes(),
            bytes@.len() > 0,
            bytes@.len() % 2 == 0,
            i <= bytes@.len(),
            forall|j: int| 0 <= j < i ==> is_hex_byte(#[trigger] bytes@[j]),
        decreases bytes@.len() - i,
    {
        if hex_nibble_checked(bytes[i]).is_none() {
            assert(!is_hex_byte(bytes@[i as int]));
            return Err(
                LaunchProvenanceError::InvalidEncoding {
                    encoded: encoded.to_owned(),
                    reason: "encoding contains a non-hex character",
                },
            );
        }
        i = i + 1;
    }
    Ok(())
}

proof fn lemma_hex_decode_len(bytes: Seq<u8>)
    ensures
        hex_decode(bytes).len() == bytes.len() / 2,
    decreases bytes.len(),
{
    if bytes.len() >= 2 {
        lemma_hex_decode_len(bytes.subrange(0, bytes.len() - 2));
    }
}

proof fn lemma_hex_decode_index(bytes: Seq<u8>, k: int)
    requires
        bytes.len() % 2 == 0,
        0 <= k < bytes.len() / 2,
    ensures
        hex_decode(bytes)[k] == (nibble_of(bytes[2 * k]) * 16 + nibble_of(bytes[2 * k + 1])) as u8,
    decreases bytes.len(),
{
    let n = bytes.len();
    let prefix = bytes.subrange(0, n - 2);
    lemma_hex_decode_len(prefix);
    if k < n / 2 - 1 {
        lemma_hex_decode_index(prefix, k);
    }
}

/// Decode a persisted config root back into its raw path bytes.
///
/// The encoding must be non-empty, even-length ASCII hex (either case);
/// anything else is refused with the reason.
pub fn decode_config_root(encoded: &str) -> (r: Result<Vec<u8>, LaunchProvenanceError>)
    ensures
        match r {
            Ok(bytes) => valid_root_encoding(encoded.spec_bytes()) && bytes@ == hex_decode(
                encoded.spec_bytes(),
            ),
            Err(LaunchProvenanceError::InvalidEncoding { encoded: e, reason }) => !valid_root_encoding(
                encoded.spec_bytes(),
            ) && e@ == encoded@ && reason@ == invalid_root_reason(encoded.spec_bytes()),
            _ => false,
        },
{
    match validate_even_hex(encoded) {
        Err(e) => return Err(e),
        Ok(()) => {},
    }
    let bytes = encoded.as_bytes();
    let ghost eb = bytes@;
    let mut out: Vec<u8> = Vec::new();
    let mut i: usize = 0;
    proof {
        lemma_hex_decode_len(eb);
    }
    while i < bytes.len() / 2
        invariant
            eb == bytes@,
            valid_root_encoding(eb),
            hex_decode(eb).len() == eb.len() / 2,
            i <= eb.len() / 2,
            out@.len() == i,
            forall|k: int| 0 <= k < i ==> #[trigger] out@[k] == hex_decode(eb)[k],
        decreases eb.len() / 2 - i,
    {
        let high = hex_nibble(bytes[2 * i]);
        let low = hex_nibble(bytes[2 * i + 1]);
        proof {
            lemma_hex_decode_index(eb, i as int);
        }
        out.push(high * 16 + low);
        i = i + 1;
    }
    assert(out@ =~= hex_decode(eb));
    Ok(out)
}

/// The characters of a hex encoding read back as single bytes.
pub open spec fn ascii_bytes(cs: Seq<char>) -> Seq<u8> {
    Seq::new(cs.len(), |i: int| cs[i] as u8)
}

proof fn lemma_hex_char_byte(d: int)
    requires
        0 <= d < 16,
    ensures
        is_hex_byte(hex_char(d) as u8),
        nibble_of(hex_char(d) as u8) == d,
        '\0' <= hex_char(d) <= '\u{7f}',
{
}

proof fn lemma_hex_encode_ascii(bytes: Seq<u8>)
    ensures
        is_ascii_chars(hex_encode(bytes)),
        valid_root_encoding(ascii_bytes(hex_encode(bytes))) || bytes.len() == 0,
        all_hex(ascii_bytes(hex_encode(bytes))),
        hex_decode(ascii_bytes(hex_encode(bytes))) == bytes,
    decreases bytes.len(),
{
    lemma_hex_encode_len(bytes);
    if bytes.len() > 0 {
        let prefix = bytes.drop_last();
        let last = bytes.last();
        lemma_hex_encode_ascii(prefix);
        lemma_hex_encode_len(prefix);
        lemma_hex_char_byte((last / 16) as int);
        lemma_hex_char_byte((last % 16) as int);
        let cs = hex_encode(bytes);
        let pcs = hex_encode(prefix);
        assert(cs == pcs + seq![hex_char((last / 16) as int), hex_char((last % 16) as int)]);
        let ab = ascii_bytes(cs);
        assert(ab.subrange(0, ab.len() - 2) =~= ascii_bytes(pcs));
        assert forall|i: int| 0 <= i < ab.len() implies is_hex_byte(#[trigger] ab[i]) by {
            if i < ab.len() - 2 {
                assert(ab[i] == ascii_bytes(pcs)[i]);
            }
        }
        assert(hex_decode(ab) =~= bytes);
    }
}

/// Law: the hex encoding of any config root decodes back to exactly that
/// root, and is a valid persisted encoding when the root is non-empty.
pub proof fn lemma_config_root_round_trip(root: Seq<u8>, encoded: &str)
    requires
        encoded@ == hex_encode(root),
    ensures
        root.len() > 0 ==> valid_root_encoding(encoded.spec_bytes()),
        hex_decode(encoded.spec_bytes()) == root,
{
    lemma_hex_encode_ascii(root);
    vstd::utf8::is_ascii_chars_encode_utf8(encoded@);
    assert(encoded.spec_bytes() =~= ascii_bytes(hex_encode(root)));
}

/// SHA-256 hex digest of the canonical serialization of a resolved workflow
/// type.
pub fn compute_workflow_digest(canonical: &[u8]) -> (r: String)
    ensures
        r@ == sha256_hex_spec(canonical@),
        r@.len() == 64,
{
    sha256_hex(canonical)
}

/// SHA-256 hex digest of the canonical serialization of a resolved workflow
/// config.
pub fn compute_config_digest(canonical: &[u8]) -> (r: String)
    ensures
        r@ == sha256_hex_spec(canonical@),
        r@.len() == 64,
{
    sha256_hex(canonical)
}

/// The tag hashed for a migration source.
pub open spec fn migration_tag(source: MigrationSource) -> Seq<char> {
    match source {
        MigrationSource::LegacyOwnershipMigration => "legacy_ownership_migration"@,
    }
}

/// The bytes a provenance digest is computed over: the big-endian schema
/// version, then each of root, workflow digest and config digest framed by a
/// big-endian `u32` length, then `0`, or `1` and the framed migration tag.
pub open spec fn provenance_bytes(p: LaunchProvenance) -> Seq<u8> {
    be_bytes(p.schema_version as nat, 4) + frame32(vstd::utf8::encode_utf8(p.canonical_config_root@))
        + frame32(vstd::utf8::encode_utf8(p.workflow_digest@)) + frame32(
        vstd::utf8::encode_utf8(p.config_digest@),
    ) + match p.migration_source {
        Some(source) => seq![1u8] + frame32(vstd::utf8::encode_utf8(migration_tag(source))),
        None => seq![0u8],
    }
}

/// Canonical SHA-256 hex digest over a [`LaunchProvenance`].
pub fn compute_provenance_digest(provenance: &LaunchProvenance) -> (r: String)
    ensures
        r@ == sha256_hex_spec(provenance_bytes(*provenance)),
        r@.len() == 64,
{
    let mut buf: Vec<u8> = Vec::new();
    push_be(&mut buf, provenance.schema_version as u64, 4);
    write_provenance_field(&mut buf, provenance.canonical_config_root.as_str().as_bytes());
    write_provenance_field(&mut buf, provenance.workflow_digest.as_str().as_bytes());
    write_provenance_field(&mut buf, provenance.config_digest.as_str().as_bytes());
    match provenance.migration_source {
        Some(source) => {
            buf.push(1u8);
            let tag = match source {
                MigrationSource::LegacyOwnershipMigration => "legacy_ownership_migration",
            };
            write_provenance_field(&mut buf, tag.as_bytes());
        },
        None => buf.push(0u8),
    }
    assert(buf@ =~= provenance_bytes(*provenance));
    sha256_hex(buf.as_slice())
}

/// Append a big-endian `u32` length prefix plus the bytes.
fn write_provenance_field(buf: &mut Vec<u8>, bytes: &[u8])
    ensures
        final(buf)@ == old(buf)@ + frame32(bytes@),
{
    push_len_prefixed32(buf, bytes);
}

/// The outcome of verifying a resume against persisted launch provenance.
#[derive(Debug, Clone, PartialEq, Eq)]
pub enum ProvenanceVerification {
    /// The recomputed digests match the persisted provenance exactly.
    Match,
    /// No persisted provenance and legacy admission allowed; carries the warning.
    Legacy(String),
    /// The resume must be refused; carries the reason.
    Mismatch(String),
}

/// Policy for a resume against a row with no persisted provenance.
#[derive(Debug, Clone, Copy, PartialEq, Eq)]
pub enum LegacyAllowed {
    /// Refuse (the default).
    Denied,
    /// Admit with a warning.
    Allowed,
}

impl Default for LegacyAllowed {
    fn default() -> (r: Self)
        ensures
            r == LegacyAllowed::Denied,
    {
        LegacyAllowed::Denied
    }
}

/// The warning given when a legacy row without provenance is admitted.
pub open spec fn legacy_warning_text() -> Seq<char> {
    "launch provenance absent (legacy row); admitting resume under explicit LegacyAllowed policy with warning; new records always carry provenance"@
}

/// The refusal given when a legacy row without provenance is not admitted.
pub open spec fn legacy_denied_text() -> Seq<char> {
    "launch provenance absent (legacy row) and legacy admission is denied; refusing resume"@
}

/// The refusal given when the recorded provenance has another schema version.
pub open spec fn schema_mismatch_text(version: u32) -> Seq<char> {
    "persisted launch provenance schema version "@ + decimal(version as nat)
        + " does not match current version "@ + decimal(LAUNCH_PROVENANCE_SCHEMA_VERSION as nat)
        + "; refusing resume to avoid digest ambiguity"@
}

/// The refusal given when the recorded config root differs from the
/// recomputed one.
pub open spec fn root_mismatch_text(persisted: Seq<char>, recomputed: Seq<char>, migrated: bool) -> Seq<char> {
    "config root mismatch: persisted canonical_config_root '"@ + persisted
        + "' does not match recomputed '"@ + recomputed + if migrated {
        "'; refusing resume of migrated row"@
    } else {
        "'; refusing resume"@
    }
}

/// The refusal given when a recorded digest differs from the recomputed one.
pub open spec fn digest_mismatch_text(what: Seq<char>, persisted: Seq<char>, recomputed: Seq<char>) -> Seq<char> {
    what + " digest mismatch: persisted '"@ + persisted + "' does not match recomputed '"@
        + recomputed + "'; refusing resume"@
}

/// What a resume verification yields for a present provenance, given the hex
/// encoding of the recomputed config root and the recomputed digests.
pub open spec fn verify_some_spec(
    p: LaunchProvenance,
    root: Seq<char>,
    workflow: Seq<char>,
    config: Seq<char>,
) -> ProvenanceVerification {
    if p.schema_version != LAUNCH_PROVENANCE_SCHEMA_VERSION {
        ProvenanceVerification::Mismatch(arbitrary())
    } else if root != p.canonical_config_root@ {
        ProvenanceVerification::Mismatch(arbitrary())
    } else if p.migration_source is Some {
        ProvenanceVerification::Match
    } else if workflow != p.workflow_digest@ {
        ProvenanceVerification::Mismatch(arbitrary())
    } else if config != p.config_digest@ {
        ProvenanceVerification::Mismatch(arbitrary())
    } else {
        ProvenanceVerification::Match
    }
}

/// The refusal reason of a present provenance, when there is one.
pub open spec fn verify_some_reason(
    p: LaunchProvenance,
    root: Seq<char>,
    workflow: Seq<char>,
    config: Seq<char>,
) -> Seq<char> {
    if p.schema_version != LAUNCH_PROVENANCE_SCHEMA_VERSION {
        schema_mismatch_text(p.schema_version)
    } else if root != p.canonical_config_root@ {
        root_mismatch_text(p.canonical_config_root@, root, p.migration_source is Some)
    } else if workflow != p.workflow_digest@ {
        digest_mismatch_text("workflow"@, p.workflow_digest@, workflow)
    } else {
        digest_mismatch_text("config"@, p.config_digest@, config)
    }
}

/// Whether a verification result is the expected one, matching refusal
/// reasons exactly.
pub open spec fn same_verification(
    r: ProvenanceVerification,
    expected: ProvenanceVerification,
    reason: Seq<char>,
) -> bool {
    match expected {
        ProvenanceVerification::Match => r is Match,
        ProvenanceVerification::Legacy(_) => r matches ProvenanceVerification::Legacy(w) && w@ == reason,
        ProvenanceVerification::Mismatch(_) => r matches ProvenanceVerification::Mismatch(m) && m@
            == reason,
    }
}

/// Whether a resume may go ahead against a recorded provenance: the schema
/// is the current one, the recorded config root is the hex encoding of the
/// recomputed root, and, unless the row was migrated, the recorded workflow
/// and config digests are the SHA-256 of the recomputed canonical workflow
/// and config.
pub open spec fn resume_admitted(
    p: LaunchProvenance,
    config_root: Seq<u8>,
    workflow_canonical: Seq<u8>,
    config_canonical: Seq<u8>,
) -> bool {
    &&& p.schema_version == LAUNCH_PROVENANCE_SCHEMA_VERSION
    &&& p.canonical_config_root@ == hex_encode(config_root)
    &&& p.migration_source is None ==> {
        &&& p.workflow_digest@ == sha256_hex_spec(workflow_canonical)
        &&& p.config_digest@ == sha256_hex_spec(config_canonical)
    }
}

/// Law: a present provenance verifies as a match exactly when its schema is
/// current, its config root is the recomputed one and, for a row that was
/// not migrated, both recorded digests equal the recomputed ones; any
/// difference in the config digest of such a row refuses the resume.
pub proof fn lemma_verification_matches_exactly(
    p: LaunchProvenance,
    root: Seq<char>,
    workflow: Seq<char>,
    config: Seq<char>,
)
    ensures
        verify_some_spec(p, root, workflow, config) is Match <==> {
            &&& p.schema_version == LAUNCH_PROVENANCE_SCHEMA_VERSION
            &&& root == p.canonical_config_root@
            &&& p.migration_source is None ==> workflow == p.workflow_digest@ && config == p.config_digest@
        },
        p.migration_source is None && config != p.config_digest@ ==> verify_some_spec(
            p,
            root,
            workflow,
            config,
        ) is Mismatch,
{
}

/// Verify a resume against the persisted provenance.
///
/// `workflow_canonical` and `config_canonical` are the canonical
/// serializations of the re-resolved workflow type and config; `config_root`
/// is the raw bytes of the canonicalized config root (or of the root as given
/// when it cannot be canonicalized).
///
/// A present provenance is checked in order: schema version, config root
/// (migrated rows stop there and match), workflow digest, config digest. An
/// absent provenance is admitted with a warning only under
/// [`LegacyAllowed::Allowed`].
pub fn verify_provenance(
    persisted: &Option<LaunchProvenance>,
    workflow_canonical: &[u8],
    config_canonical: &[u8],
    config_root: &[u8],
    legacy: LegacyAllowed,
) -> (r: ProvenanceVerification)
    ensures
        match persisted {
            Some(p) => {
                let root = hex_encode(config_root@);
                let wf = sha256_hex_spec(workflow_canonical@);
                let cf = sha256_hex_spec(config_canonical@);
                same_verification(r, verify_some_spec(*p, root, wf, cf), verify_some_reason(*p, root, wf, cf))
            },
            None => match legacy {
                LegacyAllowed::Allowed => r matches ProvenanceVerification::Legacy(w) && w@ == legacy_warning_text(),
                LegacyAllowed::Denied => r matches ProvenanceVerification::Mismatch(m) && m@ == legacy_denied_text(),
            },
        },
        r is Match <==> match persisted {
            Some(p) => resume_admitted(*p, config_root@, workflow_canonical@, config_canonical@),
            None => false,
        },
{
    match persisted {
        Some(provenance) => verify_some_provenance(
            provenance,
            workflow_canonical,
            config_canonical,
            config_root,
        ),
        None => match legacy {
            LegacyAllowed::Allowed => ProvenanceVerification::Legacy(legacy_warning()),
            LegacyAllowed::Denied => ProvenanceVerification::Mismatch(legacy_denied_reason()),
        },
    }
}

fn verify_some_provenance(
    provenance: &LaunchProvenance,
    workflow_canonical: &[u8],
    config_canonical: &[u8],
    config_root: &[u8],
) -> (r: ProvenanceVerification)
    ensures
        ({
            let root = hex_encode(config_root@);
            let wf = sha256_hex_spec(workflow_canonical@);
            let cf = sha256_hex_spec(config_canonical@);
            same_verification(
                r,
                verify_some_spec(*provenance, root, wf, cf),
                verify_some_reason(*provenance, root, wf, cf),
            )
        }),
        r is Match <==> resume_admitted(*provenance, config_root@, workflow_canonical@, config_canonical@),
{
    proof {
        lemma_verification_matches_exactly(
            *provenance,
            hex_encode(config_root@),
            sha256_hex_spec(workflow_canonical@),
            sha256_hex_spec(config_canonical@),
        );
    }
    if !provenance.schema_is_current() {
        let mut msg = owned("persisted launch provenance schema version ");
        push_u64(&mut msg, provenance.schema_version as u64);
        push_str(&mut msg, " does not match current version ");
        push_u64(&mut msg, LAUNCH_PROVENANCE_SCHEMA_VERSION as u64);
        push_str(&mut msg, "; refusing resume to avoid digest ambiguity");
        return ProvenanceVerification::Mismatch(msg);
    }
    let recomputed_root = encode_config_root(config_root);
    if !string_eq(&recomputed_root, &provenance.canonical_config_root) {
        let mut msg = owned("config root mismatch: persisted canonical_config_root '");
        push_str(&mut msg, provenance.canonical_config_root.as_str());
        push_str(&mut msg, "' does not match recomputed '");
        push_str(&mut msg, recomputed_root.as_str());
        if provenance.is_migrated() {
            push_str(&mut msg, "'; refusing resume of migrated row");
        } else {
            push_str(&mut msg, "'; refusing resume");
        }
        return ProvenanceVerification::Mismatch(msg);
    }
    if provenance.is_migrated() {
        return ProvenanceVerification::Match;
    }
    let recomputed_workflow = compute_workflow_digest(workflow_canonical);
    if !string_eq(&recomputed_workflow, &provenance.workflow_digest) {
        let mut msg = owned("workflow");
        push_str(&mut msg, " digest mismatch: persisted '");
        push_str(&mut msg, provenance.workflow_digest.as_str());
        push_str(&mut msg, "' does not match recomputed '");
        push_str(&mut msg, recomputed_workflow.as_str());
        push_str(&mut msg, "'; refusing resume");
        return ProvenanceVerification::Mismatch(msg);
    }
    let recomputed_config = compute_config_digest(config_canonical);
    if !string_eq(&recomputed_config, &provenance.config_digest) {
        let mut msg = owned("config");
        push_str(&mut msg, " digest mismatch: persisted '");
        push_str(&mut msg, provenance.config_digest.as_str());
        push_str(&mut msg, "' does not match recomputed '");
        push_str(&mut msg, recomputed_config.as_str());
        push_str(&mut msg, "'; refusing resume");
        return ProvenanceVerification::Mismatch(msg);
    }
    ProvenanceVerification::Match
}

fn legacy_warning() -> (r: String)
    ensures
        r@ == legacy_warning_text(),
{
    owned(
        "launch provenance absent (legacy row); admitting resume under explicit LegacyAllowed policy with warning; new records always carry provenance",
    )
}

fn legacy_denied_reason() -> (r: String)
    ensures
        r@ == legacy_denied_text(),
{
    owned("launch provenance absent (legacy row) and legacy admission is denied; refusing resume")
}

/// Law: a provenance recorded at launch verifies as a match when the resume
/// recomputes the same canonical workflow, config and config root.
pub proof fn lemma_recorded_provenance_matches(
    p: LaunchProvenance,
    workflow_canonical: Seq<u8>,
    config_canonical: Seq<u8>,
    root: Seq<u8>,
)
    requires
        p.schema_version == LAUNCH_PROVENANCE_SCHEMA_VERSION,
        p.canonical_config_root@ == hex_encode(root),
        p.workflow_digest@ == sha256_hex_spec(workflow_canonical),
        p.config_digest@ == sha256_hex_spec(config_canonical),
        p.migration_source is None,
    ensures
        verify_some_spec(
            p,
            hex_encode(root),
            sha256_hex_spec(workflow_canonical),
            sha256_hex_spec(config_canonical),
        ) == ProvenanceVerification::Match,
{
}

/// Law: the provenance digest covers every field: two provenance records
/// hash the same bytes only when their schema versions, config roots,
/// workflow digests, config digests and migration tags are all equal
/// (for fields shorter than `u32::MAX` bytes).
pub proof fn lemma_provenance_bytes_unambiguous(p: LaunchProvenance, q: LaunchProvenance)
    requires
        encode_utf8(p.canonical_config_root@).len() < u32::MAX,
        encode_utf8(p.workflow_digest@).len() < u32::MAX,
        encode_utf8(p.config_digest@).len() < u32::MAX,
        encode_utf8(q.canonical_config_root@).len() < u32::MAX,
        encode_utf8(q.workflow_digest@).len() < u32::MAX,
        encode_utf8(q.config_digest@).len() < u32::MAX,
        provenance_bytes(p) == provenance_bytes(q),
    ensures
        p.schema_version == q.schema_version,
        p.canonical_config_root@ == q.canonical_config_root@,
        p.workflow_digest@ == q.workflow_digest@,
        p.config_digest@ == q.config_digest@,
        p.migration_source == q.migration_source,
{
    let (ra, rb) = (encode_utf8(p.canonical_config_root@), encode_utf8(q.canonical_config_root@));
    let (wa, wb) = (encode_utf8(p.workflow_digest@), encode_utf8(q.workflow_digest@));
    let (ca, cb) = (encode_utf8(p.config_digest@), encode_utf8(q.config_digest@));
    let ta = match p.migration_source {
        Some(source) => seq![1u8] + frame32(encode_utf8(migration_tag(source))),
        None => seq![0u8],
    };
    let tb = match q.migration_source {
        Some(source) => seq![1u8] + frame32(encode_utf8(migration_tag(source))),
        None => seq![0u8],
    };
    let va = be_bytes(p.schema_version as nat, 4);
    let vb = be_bytes(q.schema_version as nat, 4);
    crate::digest::lemma_be_bytes_len(p.schema_version as nat, 4);
    crate::digest::lemma_be_bytes_len(q.schema_version as nat, 4);
    crate::digest::lemma_pow256_4();
    crate::digest::lemma_header_frames32_split(va, ra, wa, ca, ta, vb, rb, wb, cb, tb);
    crate::digest::lemma_be_bytes_injective(p.schema_version as nat, q.schema_version as nat, 4);
    vstd::utf8::encode_utf8_decode_utf8(p.canonical_config_root@);
    vstd::utf8::encode_utf8_decode_utf8(q.canonical_config_root@);
    vstd::utf8::encode_utf8_decode_utf8(p.workflow_digest@);
    vstd::utf8::encode_utf8_decode_utf8(q.workflow_digest@);
    vstd::utf8::encode_utf8_decode_utf8(p.config_digest@);
    vstd::utf8::encode_utf8_decode_utf8(q.config_digest@);
    assert(ta[0] == tb[0]);
}

// ---------------------------------------------------------------------------
// The canonical order of a config's variables.

/// A variable as plain characters: its name and value.
pub type VariableView = (Seq<char>, Seq<char>);

/// Whether one name sorts before another: character by character by code
/// point, a proper prefix first. (For UTF-8 strings this is the order of
/// `str`'s `Ord`, which compares the encoded bytes.)
pub open spec fn key_lt(a: Seq<char>, b: Seq<char>) -> bool
    decreases a.len(),
{
    if a.len() == 0 {
        b.len() > 0
    } else if b.len() == 0 {
        false
    } else if a[0] != b[0] {
        (a[0] as int) < (b[0] as int)
    } else {
        key_lt(a.drop_first(), b.drop_first())
    }
}

/// No name sorts before itself.
pub proof fn lemma_key_lt_irreflexive(a: Seq<char>)
    ensures
        !key_lt(a, a),
    decreases a.len(),
{
    if a.len() > 0 {
        lemma_key_lt_irreflexive(a.drop_first());
    }
}

/// The order of names is transitive.
pub proof fn lemma_key_lt_transitive(a: Seq<char>, b: Seq<char>, c: Seq<char>)
    requires
        key_lt(a, b),
        key_lt(b, c),
    ensures
        key_lt(a, c),
    decreases a.len(),
{
    if a.len() > 0 && b.len() > 0 && c.len() > 0 && a[0] == b[0] && b[0] == c[0] {
        lemma_key_lt_transitive(a.drop_first(), b.drop_first(), c.drop_first());
    }
}

/// Of two different names, one sorts before the other.
pub proof fn lemma_key_lt_total(a: Seq<char>, b: Seq<char>)
    requires
        a != b,
    ensures
        key_lt(a, b) || key_lt(b, a),
    decreases a.len(),
{
    if a.len() > 0 && b.len() > 0 {
        if a[0] == b[0] {
            if a.drop_first() == b.drop_first() {
                assert(a =~= seq![a[0]] + a.drop_first());
                assert(b =~= seq![b[0]] + b.drop_first());
            }
            lemma_key_lt_total(a.drop_first(), b.drop_first());
        } else {
            assert((a[0] as int) != (b[0] as int));
        }
    } else if a.len() == 0 && b.len() == 0 {
        assert(a =~= b);
    }
}

/// Where a variable goes among variables already in order: after every one
/// whose name does not sort after its own.
pub open spec fn insert_position(t: Seq<VariableView>, x: VariableView) -> nat
    decreases t.len(),
{
    if t.len() == 0 {
        0
    } else if key_lt(x.0, t.last().0) {
        insert_position(t.drop_last(), x)
    } else {
        t.len()
    }
}

/// Variables in order with one more put in its place.
pub open spec fn insert_by_name(t: Seq<VariableView>, x: VariableView) -> Seq<VariableView> {
    let p = insert_position(t, x) as int;
    t.take(p).push(x) + t.skip(p)
}

/// The variables in the canonical order: by name, stably (an insertion sort).
pub open spec fn sorted_by_name(s: Seq<VariableView>) -> Seq<VariableView>
    decreases s.len(),
{
    if s.len() == 0 {
        Seq::empty()
    } else {
        insert_by_name(sorted_by_name(s.drop_last()), s.last())
    }
}

/// The variables as plain characters.
pub open spec fn variable_views(v: Seq<(String, String)>) -> Seq<VariableView> {
    v.map_values(|p: (String, String)| (p.0@, p.1@))
}

/// Whether no name occurs twice.
pub open spec fn distinct_names(s: Seq<VariableView>) -> bool {
    forall|i: int, j: int| 0 <= i < j < s.len() ==> s[i].0 != s[j].0
}

/// Whether the names strictly increase.
pub open spec fn strictly_by_name(s: Seq<VariableView>) -> bool {
    forall|i: int, j: int| 0 <= i < j < s.len() ==> key_lt(s[i].0, s[j].0)
}

proof fn lemma_insert_position(t: Seq<VariableView>, x: VariableView)
    ensures
        insert_position(t, x) <= t.len(),
        forall|k: int| insert_position(t, x) <= k < t.len() ==> key_lt(x.0, #[trigger] t[k].0),
        insert_position(t, x) > 0 ==> !key_lt(x.0, t[insert_position(t, x) - 1].0),
    decreases t.len(),
{
    if t.len() > 0 && key_lt(x.0, t.last().0) {
        lemma_insert_position(t.drop_last(), x);
        let p = insert_position(t.drop_last(), x);
        assert forall|k: int| p <= k < t.len() implies key_lt(x.0, #[trigger] t[k].0) by {
            if k < t.len() - 1 {
                assert(t[k] == t.drop_last()[k]);
            }
        }
        if p > 0 {
            assert(t[p - 1] == t.drop_last()[p - 1]);
        }
    }
}

proof fn lemma_insert_by_name(t: Seq<VariableView>, x: VariableView)
    requires
        strictly_by_name(t),
        forall|k: int| 0 <= k < t.len() ==> t[k].0 != x.0,
    ensures
        insert_by_name(t, x).len() == t.len() + 1,
        forall|y: VariableView| insert_by_name(t, x).contains(y) <==> (t.contains(y) || y == x),
        strictly_by_name(insert_by_name(t, x)),
{
    lemma_insert_position(t, x);
    let p = insert_position(t, x) as int;
    let r = insert_by_name(t, x);
    assert(r.len() == t.len() + 1);
    assert forall|k: int| 0 <= k < r.len() implies #[trigger] r[k] == if k < p {
        t[k]
    } else if k == p {
        x
    } else {
        t[k - 1]
    } by {}
    assert forall|k: int| 0 <= k < p implies key_lt(#[trigger] t[k].0, x.0) by {
        let q = p - 1;
        assert(t[q].0 != x.0);
        lemma_key_lt_total(t[q].0, x.0);
        if k < q {
            lemma_key_lt_transitive(t[k].0, t[q].0, x.0);
        }
    }
    assert forall|y: VariableView| r.contains(y) <==> (t.contains(y) || y == x) by {
        if r.contains(y) {
            let k = choose|k: int| 0 <= k < r.len() && r[k] == y;
            if k < p {
                assert(t[k] == y);
            } else if k > p {
                assert(t[k - 1] == y);
            }
        }
        if t.contains(y) {
            let k = choose|k: int| 0 <= k < t.len() && t[k] == y;
            if k < p {
                assert(r[k] == y);
            } else {
                assert(r[k + 1] == y);
            }
        }
        if y == x {
            assert(r[p] == y);
        }
    }
    assert forall|i: int, j: int| 0 <= i < j < r.len() implies key_lt(r[i].0, r[j].0) by {
        if i < p && j < p {
        } else if i < p && j == p {
        } else if i < p {
            lemma_key_lt_transitive(t[i].0, x.0, t[j - 1].0);
        } else if i == p {
        } else {
        }
    }
}

/// Law: when no name repeats (as in a map of variables), the canonical
/// order holds exactly the given variables, their names strictly
/// increasing.
pub proof fn lemma_sorted_by_name(s: Seq<VariableView>)
    requires
        distinct_names(s),
    ensures
        sorted_by_name(s).len() == s.len(),
        forall|y: VariableView| sorted_by_name(s).contains(y) <==> s.contains(y),
        strictly_by_name(sorted_by_name(s)),
    decreases s.len(),
{
    if s.len() > 0 {
        let init = s.drop_last();
        assert forall|i: int, j: int| 0 <= i < j < init.len() implies init[i].0 != init[j].0 by {
            assert(init[i] == s[i] && init[j] == s[j]);
        }
        lemma_sorted_by_name(init);
        let t = sorted_by_name(init);
        assert forall|k: int| 0 <= k < t.len() implies t[k].0 != s.last().0 by {
            assert(t.contains(t[k]));
            assert(init.contains(t[k]));
            let m = choose|m: int| 0 <= m < init.len() && init[m] == t[k];
            assert(s[m] == init[m]);
        }
        lemma_insert_by_name(t, s.last());
        assert forall|y: VariableView| sorted_by_name(s).contains(y) <==> s.contains(y) by {
            if s.contains(y) && y != s.last() {
                let m = choose|m: int| 0 <= m < s.len() && s[m] == y;
                assert(init[m] == y);
            }
            if init.contains(y) {
                let m = choose|m: int| 0 <= m < init.len() && init[m] == y;
                assert(s[m] == y);
            }
            assert(s[s.len() - 1] == s.last());
        }
    } else {
        assert(sorted_by_name(s) =~= Seq::<VariableView>::empty());
    }
}

/// Two listings in strictly increasing name order that hold the same
/// variables are the same listing.
proof fn lemma_strictly_sorted_unique(a: Seq<VariableView>, b: Seq<VariableView>)
    requires
        strictly_by_name(a),
        strictly_by_name(b),
        forall|y: VariableView| a.contains(y) <==> b.contains(y),
    ensures
        a == b,
    decreases a.len(),
{
    if a.len() == 0 {
        if b.len() > 0 {
            assert(b.contains(b[0]));
        }
        assert(a =~= b);
    } else {
        assert(a.contains(a[0]));
        assert(b.contains(a[0]));
        assert(b.contains(b[0]));
        assert(a.contains(b[0]));
        let i = choose|i: int| 0 <= i < a.len() && a[i] == b[0];
        let j = choose|j: int| 0 <= j < b.len() && b[j] == a[0];
        if i > 0 && j > 0 {
            lemma_key_lt_transitive(a[0].0, a[i].0, b[j].0);
            lemma_key_lt_irreflexive(a[0].0);
        }
        assert(a[0] == b[0]);
        let (ta, tb) = (a.drop_first(), b.drop_first());
        assert forall|k: int, m: int| 0 <= k < m < ta.len() implies key_lt(ta[k].0, ta[m].0) by {
            assert(ta[k] == a[k + 1] && ta[m] == a[m + 1]);
        }
        assert forall|k: int, m: int| 0 <= k < m < tb.len() implies key_lt(tb[k].0, tb[m].0) by {
            assert(tb[k] == b[k + 1] && tb[m] == b[m + 1]);
        }
        assert forall|y: VariableView| ta.contains(y) <==> tb.contains(y) by {
            if ta.contains(y) {
                let k = choose|k: int| 0 <= k < ta.len() && ta[k] == y;
                assert(a[k + 1] == y);
                lemma_key_lt_irreflexive(a[0].0);
                assert(y != a[0]);
                assert(a.contains(y));
                assert(b.contains(y));
                let m = choose|m: int| 0 <= m < b.len() && b[m] == y;
                assert(m != 0);
                assert(tb[m - 1] == y);
            }
            if tb.contains(y) {
                let k = choose|k: int| 0 <= k < tb.len() && tb[k] == y;
                assert(b[k + 1] == y);
                lemma_key_lt_irreflexive(b[0].0);
                assert(y != b[0]);
                assert(b.contains(y));
                assert(a.contains(y));
                let m = choose|m: int| 0 <= m < a.len() && a[m] == y;
                assert(m != 0);
                assert(ta[m - 1] == y);
            }
        }
        lemma_strictly_sorted_unique(ta, tb);
        assert(a =~= seq![a[0]] + ta);
        assert(b =~= seq![b[0]] + tb);
    }
}

/// Law: the canonical order does not depend on the order the variables are
/// listed in: two listings of the same variables, no name repeated, give
/// the same canonical order.
pub proof fn lemma_canonical_order_independent(a: Seq<VariableView>, b: Seq<VariableView>)
    requires
        distinct_names(a),
        distinct_names(b),
        forall|y: VariableView| a.contains(y) <==> b.contains(y),
    ensures
        sorted_by_name(a) == sorted_by_name(b),
{
    lemma_sorted_by_name(a);
    lemma_sorted_by_name(b);
    assert forall|y: VariableView| sorted_by_name(a).contains(y) <==> sorted_by_name(b).contains(y) by {
        assert(sorted_by_name(a).contains(y) <==> a.contains(y));
        assert(sorted_by_name(b).contains(y) <==> b.contains(y));
        assert(a.contains(y) <==> b.contains(y));
    }
    lemma_strictly_sorted_unique(sorted_by_name(a), sorted_by_name(b));
}

/// Whether name `a` sorts before name `b` (see [`key_lt`]).
pub fn name_before(a: &str, b: &str) -> (r: bool)
    ensures
        r == key_lt(a@, b@),
{
    let na = a.unicode_len();
    let nb = b.unicode_len();
    let mut i: usize = 0;
    assert(a@.skip(0) =~= a@);
    assert(b@.skip(0) =~= b@);
    while i < na && i < nb
        invariant
            i <= na && i <= nb,
            na == a@.len() && nb == b@.len(),
            key_lt(a@, b@) == key_lt(a@.skip(i as int), b@.skip(i as int)),
        decreases na - i,
    {
        let ca = a.get_char(i);
        let cb = b.get_char(i);
        let ghost (sa, sb) = (a@.skip(i as int), b@.skip(i as int));
        proof {
            assert(sa[0] == ca && sb[0] == cb);
            assert(sa.drop_first() =~= a@.skip(i + 1));
            assert(sb.drop_first() =~= b@.skip(i + 1));
        }
        if ca != cb {
            assert((ca as u32) as int == ca as int);
            assert((cb as u32) as int == cb as int);
            return (ca as u32) < (cb as u32);
        }
        i = i + 1;
    }
    proof {
        let (sa, sb) = (a@.skip(i as int), b@.skip(i as int));
        assert(sa.len() == na - i && sb.len() == nb - i);
    }
    na < nb
}

/// The variables of a config in canonical order: by name, pairs with equal
/// names keeping their order. The provenance digest hashes them in this
/// order, so it does not depend on the order a map hands them out in.
pub fn canonicalize_variables(variables: &[(String, String)]) -> (r: Vec<(String, String)>)
    ensures
        variable_views(r@) == sorted_by_name(variable_views(variables@)),
{
    let ghost input = variable_views(variables@);
    let mut out: Vec<(String, String)> = Vec::new();
    let mut i: usize = 0;
    while i < variables.len()
        invariant
            i <= variables@.len(),
            input == variable_views(variables@),
            variable_views(out@) == sorted_by_name(input.take(i as int)),
            out@.len() == i,
        decreases variables@.len() - i,
    {
        let name = variables[i].0.clone();
        let value = variables[i].1.clone();
        let ghost x: VariableView = (name@, value@);
        let ghost t = variable_views(out@);
        proof {
            assert(input.take(i + 1).drop_last() =~= input.take(i as int));
            assert(input.take(i + 1).last() == x);
        }
        let mut p: usize = out.len();
        assert(t.take(p as int) =~= t);
        while p > 0 && name_before(name.as_str(), out[p - 1].0.as_str())
            invariant
                p <= out@.len(),
                t == variable_views(out@),
                x.0 == name@,
                insert_position(t, x) == insert_position(t.take(p as int), x),
            decreases p,
        {
            proof {
                assert(t.take(p as int).drop_last() =~= t.take(p - 1));
                assert(t.take(p as int).last() == t[p - 1]);
            }
            p = p - 1;
        }
        proof {
            if p > 0 {
                assert(t.take(p as int).last() == t[p - 1]);
                assert(insert_position(t.take(p as int), x) == p);
            }
        }
        out.insert(p, (name, value));
        proof {
            assert(variable_views(out@) =~= t.take(p as int).push(x) + t.skip(p as int));
        }
        i = i + 1;
    }
    assert(input.take(variables@.len() as int) =~= input);
    out
}

} // verus!
