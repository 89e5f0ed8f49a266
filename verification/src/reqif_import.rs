//! Bounded, in-memory ReqIF / ReqIFz intake: format detection, size and
//! entry-count limits, artifact hashing, attachment inventory and the
//! provenance each document is lowered with.
use vstd::prelude::*;

use crate::cache::{sha256_hex, sha256_hex_spec};
use crate::reqif_adapter::{bundle_to_requirement_graph, lowering_outcome, ReqIfAdapterConfig, ReqIfAdapterError};
use crate::reqif_bundle::{bundle_v, ReqIfBundle};
use crate::requirements::{graph_v, GraphV, RequirementGraph};
use crate::text::{ascii_lower, last_index_of, push_str, str_chars};

verus! {

/// Default cap for both the uploaded artifact and an expanded ReqIFz archive.
pub const DEFAULT_MAX_REQIF_IMPORT_BYTES: usize = 33554432;

/// Default cap on the number of entries of a ReqIFz archive.
pub const DEFAULT_MAX_REQIFZ_ENTRIES: usize = 4096;

/// The ReqIF parser release the validation evidence names.
pub const REQRS_PARSER_VERSION: &'static str = "0.2.2";

/// The requirements-graph contract the validation evidence names.
pub const REQUIREMENT_GRAPH_CONTRACT_VERSION: &'static str = "ufo-types/0.15.0:mbse::requirements";

/// Serialized interface identity carried by every import result.
pub const B00T_REQIF_INTAKE_INTERFACE: &'static str = "b00t.type/reqif-import/v1";

/// Acquisition-neutral policy and provenance supplied by the caller.
#[derive(Debug, Clone)]
pub struct ReqIfImportConfig {
    /// Provenance for the source; absent, the artifact digest's
    /// `urn:sha256:` locator is used.
    pub source_uri: Option<String>,
    /// Immutable source revision; absent, the artifact digest.
    pub revision: Option<String>,
    pub max_artifact_bytes: usize,
    pub max_expanded_bytes: usize,
    pub max_archive_entries: usize,
}

impl Default for ReqIfImportConfig {
    fn default() -> (r: ReqIfImportConfig)
        ensures
            r.source_uri is None,
            r.revision is None,
            r.max_artifact_bytes == DEFAULT_MAX_REQIF_IMPORT_BYTES,
            r.max_expanded_bytes == DEFAULT_MAX_REQIF_IMPORT_BYTES,
            r.max_archive_entries == DEFAULT_MAX_REQIFZ_ENTRIES,
    {
        ReqIfImportConfig {
            source_uri: None,
            revision: None,
            max_artifact_bytes: DEFAULT_MAX_REQIF_IMPORT_BYTES,
            max_expanded_bytes: DEFAULT_MAX_REQIF_IMPORT_BYTES,
            max_archive_entries: DEFAULT_MAX_REQIFZ_ENTRIES,
        }
    }
}

/// A ReqIF document of an artifact, unparsed, with the provenance it is
/// lowered under. A plain `.reqif` gives one document with no entry name;
/// a `.reqifz` one per `.reqif` / `.xml` entry.
#[derive(Debug, Clone)]
pub struct ReqIfDocumentSource {
    pub entry_name: Option<String>,
    pub lowering: ReqIfAdapterConfig,
    pub bytes: Vec<u8>,
}

/// The parser and graph-contract versions behind a validation decision.
#[derive(Debug, Clone, PartialEq, Eq)]
pub struct ReqIfValidationIdentity {
    pub parser: &'static str,
    pub parser_version: &'static str,
    pub normalized_graph_contract: &'static str,
}

/// Inventory of one non-document archive entry.
#[derive(Debug, Clone, PartialEq, Eq)]
pub struct ReqIfAttachment {
    pub entry_name: String,
    pub byte_len: usize,
    pub sha256: String,
}

/// An artifact taken in within its limits: its digest and size, the ReqIF
/// documents it holds (still unparsed, as bytes) and its other files.
#[derive(Debug, Clone)]
pub struct ReqIfArtifact {
    pub b00t_type: &'static str,
    pub artifact_sha256: String,
    pub artifact_byte_len: usize,
    pub documents: Vec<ReqIfDocumentSource>,
    pub attachments: Vec<ReqIfAttachment>,
}

/// Why an artifact was refused.
#[derive(Debug, Clone, PartialEq, Eq)]
pub enum ReqIfImportError {
    ArtifactTooLarge { actual: usize, maximum: usize },
    ExpandedTooLarge { maximum: usize },
    TooManyArchiveEntries { actual: usize, maximum: usize },
    NoDocuments,
    Archive(String),
    Adapter(ReqIfAdapterError),
    CanonicalGraph(String),
}

/// An intake that stopped: the refusal, and the documents read before
/// it, in archive order (each would have been lowered before the intake
/// went on).
#[derive(Debug, Clone)]
pub struct ReqIfIntakeStop {
    pub error: ReqIfImportError,
    pub documents_before: Vec<ReqIfDocumentSource>,
}

/// The parser and contract versions of every import.
pub fn validation_identity() -> (r: ReqIfValidationIdentity)
    ensures
        r == validation_identity_spec(),
        r.parser@ == "reqrs"@,
        r.parser_version@ == REQRS_PARSER_VERSION@,
        r.normalized_graph_contract@ == REQUIREMENT_GRAPH_CONTRACT_VERSION@,
{
    ReqIfValidationIdentity {
        parser: "reqrs",
        parser_version: REQRS_PARSER_VERSION,
        normalized_graph_contract: REQUIREMENT_GRAPH_CONTRACT_VERSION,
    }
}

/// A ZIP local-file, empty-archive or spanned signature: `PK` followed by
/// `03 04`, `05 06` or `07 08` (any pairing of those bytes).
pub open spec fn is_zip_spec(b: Seq<u8>) -> bool {
    b.len() >= 4 && b[0] == 0x50u8 && b[1] == 0x4bu8 && (b[2] == 3u8 || b[2] == 5u8 || b[2] == 7u8)
        && (b[3] == 4u8 || b[3] == 6u8 || b[3] == 8u8)
}

/// Whether `bytes` starts with a ZIP signature.
pub fn is_zip(bytes: &[u8]) -> (r: bool)
    ensures
        r == is_zip_spec(bytes@),
{
    bytes.len() >= 4 && bytes[0] == 0x50u8 && bytes[1] == 0x4bu8 && (bytes[2] == 3u8 || bytes[2] == 5u8
        || bytes[2] == 7u8) && (bytes[3] == 4u8 || bytes[3] == 6u8 || bytes[3] == 8u8)
}

/// An entry is a ReqIF document when the text after its last `.` is
/// `reqif` or `xml`, ignoring ASCII case.
pub open spec fn is_reqif_document_spec(name: Seq<char>) -> bool {
    match last_index_of(name, '.') {
        Some(i) => {
            let ext = ascii_lower(name.skip(i + 1));
            ext == "reqif"@ || ext == "xml"@
        },
        None => false,
    }
}

/// Whether an archive entry name denotes a ReqIF document.
pub fn is_reqif_document(name: &str) -> (r: bool)
    ensures
        r == is_reqif_document_spec(name@),
{
    let v = str_chars(name);
    match crate::text::find_last(v.as_slice(), '.') {
        Some(i) => {
            proof { crate::text::lemma_last_index_of(v@, '.'); }
            let mut ext: Vec<char> = Vec::new();
            let mut k = i + 1;
            while k < v.len()
                invariant
                    i < k <= v@.len(),
                    ext@ == v@.subrange(i + 1, k as int),
                decreases v@.len() - k,
            {
                ext.push(v[k]);
                assert(v@.subrange(i + 1, k + 1) =~= v@.subrange(i + 1, k as int).push(v@[k as int]));
                k = k + 1;
            }
            assert(ext@ =~= v@.skip(i + 1));
            let lower = crate::text::to_ascii_lower(ext.as_slice());
            let r = crate::text::chars_eq(lower.as_slice(), str_chars("reqif").as_slice())
                || crate::text::chars_eq(lower.as_slice(), str_chars("xml").as_slice());
            r
        },
        None => false,
    }
}

/// Adds `additional` to the expanded-size budget `used`, refusing to pass
/// `maximum` (or overflow).
pub fn reserve_expanded(used: &mut usize, additional: usize, maximum: usize) -> (r: Result<(), ReqIfImportError>)
    ensures
        old(used) + additional <= maximum ==> r is Ok && *final(used) == old(used) + additional,
        old(used) + additional > maximum ==> r == Err::<(), ReqIfImportError>(ReqIfImportError::ExpandedTooLarge { maximum })
            && *final(used) == *old(used),
{
    if additional > maximum || *used > maximum - additional {
        return Err(ReqIfImportError::ExpandedTooLarge { maximum });
    }
    *used = *used + additional;
    Ok(())
}

/// The provenance a document is lowered under: the configured source URI
/// (or `urn:sha256:{digest}`), suffixed `#{entry}` for an archive entry;
/// the configured revision (or `sha256:{digest}`); and the artifact digest.
pub open spec fn lowering_spec(entry_name: Option<Seq<char>>, source_uri: Option<Seq<char>>, revision: Option<Seq<char>>, sha: Seq<char>) -> (Seq<char>, Seq<char>) {
    let base = match source_uri {
        Some(u) => u,
        None => "urn:sha256:"@ + sha,
    };
    let uri = match entry_name {
        Some(n) => base + "#"@ + n,
        None => base,
    };
    let rev = match revision {
        Some(r) => r,
        None => "sha256:"@ + sha,
    };
    (uri, rev)
}

pub open spec fn opt_view(o: Option<String>) -> Option<Seq<char>> {
    crate::ontology::opt_string_view(o)
}

/// The plain-value content of an imported document.
pub struct DocView {
    pub entry_name: Option<Seq<char>>,
    pub source_uri: Seq<char>,
    pub revision: Seq<char>,
    pub artifact_sha256: Option<Seq<char>>,
    pub bytes: Seq<u8>,
}

pub open spec fn doc_view(d: ReqIfDocumentSource) -> DocView {
    DocView {
        entry_name: opt_view(d.entry_name),
        source_uri: d.lowering.source_uri@,
        revision: d.lowering.revision@,
        artifact_sha256: opt_view(d.lowering.import_artifact_sha256),
        bytes: d.bytes@,
    }
}

/// The document of `bytes` under `config` for an artifact with digest `sha`.
pub open spec fn doc_spec(entry_name: Option<Seq<char>>, config: ReqIfImportConfig, sha: Seq<char>, bytes: Seq<u8>) -> DocView {
    let (uri, rev) = lowering_spec(entry_name, opt_view(config.source_uri), opt_view(config.revision), sha);
    DocView { entry_name, source_uri: uri, revision: rev, artifact_sha256: Some(sha), bytes }
}

fn make_document(entry_name: Option<&str>, config: &ReqIfImportConfig, sha: &str, bytes: Vec<u8>) -> (d: ReqIfDocumentSource)
    ensures
        doc_view(d) == doc_spec(crate::k8s_recognizer::opt_str_view(entry_name), *config, sha@, bytes@),
{
    let mut uri = String::new();
    match &config.source_uri {
        Some(u) => push_str(&mut uri, u.as_str()),
        None => {
            push_str(&mut uri, "urn:sha256:");
            push_str(&mut uri, sha);
        },
    }
    match entry_name {
        Some(n) => {
            push_str(&mut uri, "#");
            push_str(&mut uri, n);
        },
        None => {},
    }
    let mut rev = String::new();
    match &config.revision {
        Some(r) => push_str(&mut rev, r.as_str()),
        None => {
            push_str(&mut rev, "sha256:");
            push_str(&mut rev, sha);
        },
    }
    let mut digest = String::new();
    push_str(&mut digest, sha);
    let name = match entry_name {
        Some(n) => {
            let mut s = String::new();
            push_str(&mut s, n);
            Some(s)
        },
        None => None,
    };
    let d = ReqIfDocumentSource {
        entry_name: name,
        lowering: ReqIfAdapterConfig { source_uri: uri, revision: rev, import_artifact_sha256: Some(digest) },
        bytes,
    };
    assert(doc_view(d) =~= doc_spec(crate::k8s_recognizer::opt_str_view(entry_name), *config, sha@, bytes@));
    d
}

// ---------------------------------------------------------------------
// ZIP archives (the `zip` crate over an in-memory cursor)
// ---------------------------------------------------------------------

#[verifier::external_type_specification]
#[verifier::external_body]
#[verifier::reject_recursive_types(R)]
pub struct ExZipArchive<R>(zip::ZipArchive<R>);

#[verifier::external_type_specification]
#[verifier::external_body]
#[verifier::reject_recursive_types(T)]
pub struct ExCursor<T>(std::io::Cursor<T>);

/// Whether `zip::ZipArchive::new` accepts `data` as an archive.
pub uninterp spec fn zip_opens(data: Seq<u8>) -> bool;

/// `ZipArchive::len` of the archive in `data`.
pub uninterp spec fn zip_len(data: Seq<u8>) -> nat;

/// `ZipArchive::by_index(i)` of the archive in `data`, read as its name,
/// whether it is a directory, and its declared uncompressed size; `None`
/// when the entry cannot be opened or its name decoded.
pub uninterp spec fn zip_entry(data: Seq<u8>, i: nat) -> Option<(Seq<char>, bool, u64)>;

/// The uncompressed bytes of entry `i` (`by_index` then `read_to_end`);
/// `None` when reading fails.
pub uninterp spec fn zip_entry_bytes(data: Seq<u8>, i: nat) -> Option<Seq<u8>>;

/// An archive open over a copy of the artifact bytes.
pub struct ZipReader {
    archive: zip::ZipArchive<std::io::Cursor<Vec<u8>>>,
    source: Ghost<Seq<u8>>,
}

/// `zip::ZipArchive::new` over an in-memory cursor; the error as text.
#[verifier::external_body]
fn zip_open(bytes: &[u8]) -> (r: Result<ZipReader, String>)
    ensures
        match r {
            Ok(z) => z.source@ == bytes@ && zip_opens(bytes@),
            Err(_) => !zip_opens(bytes@),
        },
{
    match zip::ZipArchive::new(std::io::Cursor::new(bytes.to_vec())) {
        Ok(archive) => Ok(ZipReader { archive, source: Ghost(bytes@) }),
        Err(e) => Err(e.to_string()),
    }
}

/// `ZipArchive::len`.
#[verifier::external_body]
fn zip_count(z: &ZipReader) -> (r: usize)
    ensures
        r == zip_len(z.source@),
{
    z.archive.len()
}

/// `ZipArchive::by_index(i)`, then the entry's `name()`, `is_dir()` and
/// `size()`; an error as text.
#[verifier::external_body]
fn zip_entry_info(z: &mut ZipReader, i: usize) -> (r: Result<(String, bool, u64), String>)
    ensures
        final(z).source == old(z).source,
        match r {
            Ok((name, dir, size)) => zip_entry(old(z).source@, i as nat) == Some((name@, dir, size)),
            Err(_) => zip_entry(old(z).source@, i as nat) is None,
        },
{
    match z.archive.by_index(i) {
        Ok(entry) => match entry.name() {
            Ok(name) => Ok((name.to_string(), entry.is_dir(), entry.size())),
            Err(e) => Err(e.to_string()),
        },
        Err(e) => Err(e.to_string()),
    }
}

/// `ZipArchive::by_index(i)` then `Read::read_to_end`; an error as text.
#[verifier::external_body]
fn zip_entry_read(z: &mut ZipReader, i: usize) -> (r: Result<Vec<u8>, String>)
    ensures
        final(z).source == old(z).source,
        match r {
            Ok(bytes) => zip_entry_bytes(old(z).source@, i as nat) == Some(bytes@),
            Err(_) => zip_entry_bytes(old(z).source@, i as nat) is None,
        },
{
    match z.archive.by_index(i) {
        Ok(mut entry) => {
            let mut buf = Vec::new();
            match std::io::Read::read_to_end(&mut entry, &mut buf) {
                Ok(_) => Ok(buf),
                Err(e) => Err(e.to_string()),
            }
        },
        Err(e) => Err(e.to_string()),
    }
}

// ---------------------------------------------------------------------
// The import
// ---------------------------------------------------------------------

/// What an import can refuse, without the free-text payloads.
pub enum ImportFailure {
    ArtifactTooLarge { actual: nat, maximum: nat },
    ExpandedTooLarge { maximum: nat },
    TooManyArchiveEntries { actual: nat, maximum: nat },
    NoDocuments,
    Archive,
}

pub open spec fn failure_of(e: ReqIfImportError) -> Option<ImportFailure> {
    match e {
        ReqIfImportError::ArtifactTooLarge { actual, maximum } => Some(ImportFailure::ArtifactTooLarge { actual: actual as nat, maximum: maximum as nat }),
        ReqIfImportError::ExpandedTooLarge { maximum } => Some(ImportFailure::ExpandedTooLarge { maximum: maximum as nat }),
        ReqIfImportError::TooManyArchiveEntries { actual, maximum } => Some(ImportFailure::TooManyArchiveEntries { actual: actual as nat, maximum: maximum as nat }),
        ReqIfImportError::NoDocuments => Some(ImportFailure::NoDocuments),
        ReqIfImportError::Archive(_) => Some(ImportFailure::Archive),
        _ => None,
    }
}

/// The plain-value content of an attachment row.
pub struct AttView {
    pub entry_name: Seq<char>,
    pub byte_len: nat,
    pub sha256: Seq<char>,
}

pub open spec fn att_view(a: ReqIfAttachment) -> AttView {
    AttView { entry_name: a.entry_name@, byte_len: a.byte_len as nat, sha256: a.sha256@ }
}

/// The scan of archive entries `i..` with `used` bytes of the expanded
/// budget spent and `docs` / `atts` collected so far.
pub open spec fn scan(
    data: Seq<u8>,
    config: ReqIfImportConfig,
    sha: Seq<char>,
    i: nat,
    used: nat,
    docs: Seq<DocView>,
    atts: Seq<AttView>,
) -> Result<(Seq<DocView>, Seq<AttView>), ImportFailure>
    decreases zip_len(data) - i,
{
    if i >= zip_len(data) {
        Ok((docs, atts))
    } else {
        let max = config.max_expanded_bytes as nat;
        match zip_entry(data, i) {
            None => Err(ImportFailure::Archive),
            Some((name, is_dir, size)) => if is_dir {
                scan(data, config, sha, i + 1, used, docs, atts)
            } else if size > usize::MAX || used + size > max {
                Err(ImportFailure::ExpandedTooLarge { maximum: max })
            } else {
                match zip_entry_bytes(data, i) {
                    None => Err(ImportFailure::Archive),
                    Some(bytes) => {
                        let used2 = used + size;
                        if bytes.len() > size && used2 + (bytes.len() - size) > max {
                            Err(ImportFailure::ExpandedTooLarge { maximum: max })
                        } else {
                            let used3 = if bytes.len() > size { used2 + (bytes.len() - size) } else { used2 };
                            if is_reqif_document_spec(name) {
                                scan(data, config, sha, i + 1, used3 as nat, docs.push(doc_spec(Some(name), config, sha, bytes)), atts)
                            } else {
                                scan(data, config, sha, i + 1, used3 as nat, docs, atts.push(AttView {
                                    entry_name: name,
                                    byte_len: bytes.len(),
                                    sha256: sha256_hex_spec(bytes),
                                }))
                            }
                        }
                    },
                }
            },
        }
    }
}

/// The documents the scan of entries `i..` has read when it ends, whether
/// it ends with the whole archive read or with a refusal.
pub open spec fn scan_docs(
    data: Seq<u8>,
    config: ReqIfImportConfig,
    sha: Seq<char>,
    i: nat,
    used: nat,
    docs: Seq<DocView>,
) -> Seq<DocView>
    decreases zip_len(data) - i,
{
    if i >= zip_len(data) {
        docs
    } else {
        let max = config.max_expanded_bytes as nat;
        match zip_entry(data, i) {
            None => docs,
            Some((name, is_dir, size)) => if is_dir {
                scan_docs(data, config, sha, i + 1, used, docs)
            } else if size > usize::MAX || used + size > max {
                docs
            } else {
                match zip_entry_bytes(data, i) {
                    None => docs,
                    Some(bytes) => {
                        let used2 = used + size;
                        if bytes.len() > size && used2 + (bytes.len() - size) > max {
                            docs
                        } else {
                            let used3 = if bytes.len() > size { used2 + (bytes.len() - size) } else { used2 };
                            if is_reqif_document_spec(name) {
                                scan_docs(data, config, sha, i + 1, used3 as nat, docs.push(doc_spec(Some(name), config, sha, bytes)))
                            } else {
                                scan_docs(data, config, sha, i + 1, used3 as nat, docs)
                            }
                        }
                    },
                }
            },
        }
    }
}

/// The documents an intake of `bytes` reads before it ends: all of them
/// when it succeeds, those before the refusal when it stops.
pub open spec fn intake_docs(bytes: Seq<u8>, config: ReqIfImportConfig) -> Seq<DocView> {
    if bytes.len() > config.max_artifact_bytes {
        Seq::empty()
    } else if !is_zip_spec(bytes) {
        seq![doc_spec(None, config, sha256_hex_spec(bytes), bytes)]
    } else if !zip_opens(bytes) || zip_len(bytes) > config.max_archive_entries {
        Seq::empty()
    } else {
        scan_docs(bytes, config, sha256_hex_spec(bytes), 0, 0, Seq::empty())
    }
}

/// The outcome of importing `bytes` under `config`: documents and
/// attachments, or the reason for refusal.
pub open spec fn import_spec(bytes: Seq<u8>, config: ReqIfImportConfig) -> Result<(Seq<DocView>, Seq<AttView>), ImportFailure> {
    let sha = sha256_hex_spec(bytes);
    if bytes.len() > config.max_artifact_bytes {
        Err(ImportFailure::ArtifactTooLarge { actual: bytes.len(), maximum: config.max_artifact_bytes as nat })
    } else if !is_zip_spec(bytes) {
        Ok((seq![doc_spec(None, config, sha, bytes)], Seq::empty()))
    } else if !zip_opens(bytes) {
        Err(ImportFailure::Archive)
    } else if zip_len(bytes) > config.max_archive_entries {
        Err(ImportFailure::TooManyArchiveEntries { actual: zip_len(bytes), maximum: config.max_archive_entries as nat })
    } else {
        match scan(bytes, config, sha, 0, 0, Seq::empty(), Seq::empty()) {
            Ok((docs, atts)) => if docs.len() == 0 {
                Err(ImportFailure::NoDocuments)
            } else {
                Ok((docs, atts))
            },
            Err(f) => Err(f),
        }
    }
}

/// The bytes of the archive's file entries from entry `i` on, in total.
pub open spec fn file_bytes_from(data: Seq<u8>, i: nat) -> nat
    decreases zip_len(data) - i,
{
    if i >= zip_len(data) {
        0
    } else {
        let here: nat = match zip_entry(data, i) {
            Some((_, false, _)) => match zip_entry_bytes(data, i) {
                Some(b) => b.len(),
                None => 0,
            },
            _ => 0,
        };
        here + file_bytes_from(data, i + 1)
    }
}

proof fn lemma_scan_within_budget(
    data: Seq<u8>,
    config: ReqIfImportConfig,
    sha: Seq<char>,
    i: nat,
    used: nat,
    docs: Seq<DocView>,
    atts: Seq<AttView>,
)
    requires
        used <= config.max_expanded_bytes,
        scan(data, config, sha, i, used, docs, atts) is Ok,
    ensures
        used + file_bytes_from(data, i) <= config.max_expanded_bytes,
    decreases zip_len(data) - i,
{
    if i < zip_len(data) {
        match zip_entry(data, i) {
            Some((name, is_dir, size)) => {
                if is_dir {
                    lemma_scan_within_budget(data, config, sha, i + 1, used, docs, atts);
                } else {
                    let bytes = zip_entry_bytes(data, i)->0;
                    let used2 = used + size;
                    let used3: nat = if bytes.len() > size { (used2 + (bytes.len() - size)) as nat } else { used2 as nat };
                    if is_reqif_document_spec(name) {
                        lemma_scan_within_budget(data, config, sha, i + 1, used3, docs.push(doc_spec(Some(name), config, sha, bytes)), atts);
                    } else {
                        lemma_scan_within_budget(data, config, sha, i + 1, used3, docs, atts.push(AttView {
                            entry_name: name,
                            byte_len: bytes.len(),
                            sha256: sha256_hex_spec(bytes),
                        }));
                    }
                }
            },
            None => {},
        }
    }
}

/// A ReqIFz archive that is taken in stays within the expanded-size
/// budget: the bytes of all its file entries together are at most
/// `max_expanded_bytes`.
pub proof fn law_reqifz_within_expanded_budget(bytes: Seq<u8>, config: ReqIfImportConfig)
    requires
        is_zip_spec(bytes),
        import_spec(bytes, config) is Ok,
    ensures
        file_bytes_from(bytes, 0) <= config.max_expanded_bytes,
{
    lemma_scan_within_budget(bytes, config, sha256_hex_spec(bytes), 0, 0, Seq::empty(), Seq::empty());
}

pub open spec fn docs_view(v: Seq<ReqIfDocumentSource>) -> Seq<DocView> {
    v.map_values(|d: ReqIfDocumentSource| doc_view(d))
}

pub open spec fn atts_view(v: Seq<ReqIfAttachment>) -> Seq<AttView> {
    v.map_values(|a: ReqIfAttachment| att_view(a))
}

fn import_reqifz(bytes: &[u8], config: &ReqIfImportConfig, artifact_sha256: String) -> (r: Result<ReqIfArtifact, ReqIfIntakeStop>)
    requires
        is_zip_spec(bytes@),
        bytes@.len() <= config.max_artifact_bytes,
        artifact_sha256@ == sha256_hex_spec(bytes@),
    ensures
        match (r, import_spec(bytes@, *config)) {
            (Ok(res), Ok((docs, atts))) => docs_view(res.documents@) == docs && atts_view(res.attachments@) == atts
                && res.artifact_sha256@ == artifact_sha256@ && res.artifact_byte_len == bytes@.len()
                && res.b00t_type@ == B00T_REQIF_INTAKE_INTERFACE@,
            (Err(stop), Err(f)) => failure_of(stop.error) == Some(f)
                && docs_view(stop.documents_before@) == intake_docs(bytes@, *config),
            _ => false,
        },
{
    let mut z = match zip_open(bytes) {
        Ok(z) => z,
        Err(m) => {
            return Err(ReqIfIntakeStop { error: ReqIfImportError::Archive(m), documents_before: Vec::new() });
        },
    };
    let n = zip_count(&z);
    if n > config.max_archive_entries {
        return Err(ReqIfIntakeStop {
            error: ReqIfImportError::TooManyArchiveEntries { actual: n, maximum: config.max_archive_entries },
            documents_before: Vec::new(),
        });
    }
    let ghost data = bytes@;
    let ghost sha = artifact_sha256@;
    let mut used: usize = 0;
    let mut documents: Vec<ReqIfDocumentSource> = Vec::new();
    let mut attachments: Vec<ReqIfAttachment> = Vec::new();
    let mut index: usize = 0;
    assert(docs_view(documents@) =~= Seq::<DocView>::empty());
    assert(atts_view(attachments@) =~= Seq::<AttView>::empty());
    assert(import_spec(bytes@, *config) == match scan(data, *config, sha, 0, 0, Seq::empty(), Seq::empty()) {
        Ok((docs, atts)) => if docs.len() == 0 {
            Err(ImportFailure::NoDocuments)
        } else {
            Ok((docs, atts))
        },
        Err(f) => Err(f),
    });
    assert(intake_docs(bytes@, *config) == scan_docs(data, *config, sha, 0, 0, docs_view(documents@)));
    while index < n
        invariant
            import_spec(bytes@, *config) == match scan(data, *config, sha, 0, 0, Seq::empty(), Seq::empty()) {
                Ok((docs, atts)) => if docs.len() == 0 {
                    Err(ImportFailure::NoDocuments)
                } else {
                    Ok((docs, atts))
                },
                Err(f) => Err(f),
            },
            data == bytes@,
            z.source@ == data,
            n == zip_len(data),
            index <= n,
            used <= config.max_expanded_bytes,
            artifact_sha256@ == sha,
            intake_docs(bytes@, *config) == scan_docs(data, *config, sha, index as nat, used as nat, docs_view(documents@)),
            scan(data, *config, sha, 0, 0, Seq::empty(), Seq::empty())
                == scan(data, *config, sha, index as nat, used as nat, docs_view(documents@), atts_view(attachments@)),
        decreases n - index,
    {
        let ghost cur_docs = docs_view(documents@);
        let ghost cur_atts = atts_view(attachments@);
        let ghost here = scan(data, *config, sha, index as nat, used as nat, cur_docs, cur_atts);
        let ghost here_docs = scan_docs(data, *config, sha, index as nat, used as nat, cur_docs);
        let ghost used0 = used as nat;
        let (name, is_dir, size) = match zip_entry_info(&mut z, index) {
            Ok(info) => info,
            Err(m) => {
                assert(here is Err && here->Err_0 == ImportFailure::Archive);
                assert(here_docs == cur_docs);
                return Err(ReqIfIntakeStop { error: ReqIfImportError::Archive(m), documents_before: documents });
            },
        };
        if is_dir {
            index = index + 1;
            continue;
        }
        if size > usize::MAX as u64 {
            assert(here == Err::<(Seq<DocView>, Seq<AttView>), ImportFailure>(ImportFailure::ExpandedTooLarge { maximum: config.max_expanded_bytes as nat }));
            assert(here_docs == cur_docs);
            return Err(ReqIfIntakeStop {
                error: ReqIfImportError::ExpandedTooLarge { maximum: config.max_expanded_bytes },
                documents_before: documents,
            });
        }
        let declared = size as usize;
        match reserve_expanded(&mut used, declared, config.max_expanded_bytes) {
            Ok(()) => {},
            Err(e) => {
                assert(here == Err::<(Seq<DocView>, Seq<AttView>), ImportFailure>(ImportFailure::ExpandedTooLarge { maximum: config.max_expanded_bytes as nat }));
                assert(here_docs == cur_docs);
                return Err(ReqIfIntakeStop { error: e, documents_before: documents });
            },
        }
        let entry_bytes = match zip_entry_read(&mut z, index) {
            Ok(b) => b,
            Err(m) => {
                assert(here is Err && here->Err_0 == ImportFailure::Archive);
                assert(here_docs == cur_docs);
                return Err(ReqIfIntakeStop { error: ReqIfImportError::Archive(m), documents_before: documents });
            },
        };
        if entry_bytes.len() > declared {
            match reserve_expanded(&mut used, entry_bytes.len() - declared, config.max_expanded_bytes) {
                Ok(()) => {},
                Err(e) => {
                    assert(here == Err::<(Seq<DocView>, Seq<AttView>), ImportFailure>(ImportFailure::ExpandedTooLarge { maximum: config.max_expanded_bytes as nat }));
                    assert(here_docs == cur_docs);
                    return Err(ReqIfIntakeStop { error: e, documents_before: documents });
                },
            }
        }
        if is_reqif_document(name.as_str()) {
            let ghost before = docs_view(documents@);
            let doc = make_document(Some(name.as_str()), config, artifact_sha256.as_str(), entry_bytes);
            documents.push(doc);
            assert(docs_view(documents@) =~= before.push(doc_view(doc)));
        } else {
            let ghost before = atts_view(attachments@);
            let digest = sha256_hex(entry_bytes.as_slice());
            let att = ReqIfAttachment { entry_name: name, byte_len: entry_bytes.len(), sha256: digest };
            attachments.push(att);
            assert(atts_view(attachments@) =~= before.push(att_view(att)));
        }
        index = index + 1;
    }
    assert(scan(data, *config, sha, index as nat, used as nat, docs_view(documents@), atts_view(attachments@))
        == Ok::<(Seq<DocView>, Seq<AttView>), ImportFailure>((docs_view(documents@), atts_view(attachments@))));
    assert(scan_docs(data, *config, sha, index as nat, used as nat, docs_view(documents@)) == docs_view(documents@));
    if documents.len() == 0 {
        return Err(ReqIfIntakeStop { error: ReqIfImportError::NoDocuments, documents_before: documents });
    }
    Ok(ReqIfArtifact {
        b00t_type: B00T_REQIF_INTAKE_INTERFACE,
        artifact_sha256,
        artifact_byte_len: bytes.len(),
        documents,
        attachments,
    })
}

pub open spec fn validation_identity_spec() -> ReqIfValidationIdentity {
    ReqIfValidationIdentity {
        parser: "reqrs",
        parser_version: REQRS_PARSER_VERSION,
        normalized_graph_contract: REQUIREMENT_GRAPH_CONTRACT_VERSION,
    }
}

/// Imports a plain ReqIF XML document or a ReqIFz ZIP artifact from bytes:
/// the artifact cap is checked first; a ZIP signature selects archive
/// intake, where the entry count is capped before any entry is read and
/// every entry's declared and actual size count against the expanded-size
/// budget; `.reqif` / `.xml` entries become documents and every other file
/// an attachment row with its own digest.
pub fn read_reqif_artifact(bytes: &[u8], config: &ReqIfImportConfig) -> (r: Result<ReqIfArtifact, ReqIfIntakeStop>)
    ensures
        match (r, import_spec(bytes@, *config)) {
            (Ok(res), Ok((docs, atts))) => docs_view(res.documents@) == docs && atts_view(res.attachments@) == atts
                && res.artifact_sha256@ == sha256_hex_spec(bytes@) && res.artifact_byte_len == bytes@.len()
                && res.b00t_type@ == B00T_REQIF_INTAKE_INTERFACE@,
            (Err(stop), Err(f)) => failure_of(stop.error) == Some(f)
                && docs_view(stop.documents_before@) == intake_docs(bytes@, *config),
            _ => false,
        },
{
    if bytes.len() > config.max_artifact_bytes {
        return Err(ReqIfIntakeStop {
            error: ReqIfImportError::ArtifactTooLarge { actual: bytes.len(), maximum: config.max_artifact_bytes },
            documents_before: Vec::new(),
        });
    }
    let artifact_sha256 = sha256_hex(bytes);
    if is_zip(bytes) {
        import_reqifz(bytes, config, artifact_sha256)
    } else {
        let mut copy: Vec<u8> = Vec::new();
        crate::cache::push_bytes(&mut copy, bytes);
        let document = make_document(None, config, artifact_sha256.as_str(), copy);
        let mut documents: Vec<ReqIfDocumentSource> = Vec::new();
        documents.push(document);
        let res = ReqIfArtifact {
            b00t_type: B00T_REQIF_INTAKE_INTERFACE,
            artifact_sha256,
            artifact_byte_len: bytes.len(),
            documents,
            attachments: Vec::new(),
        };
        assert(copy@ =~= bytes@);
        assert(docs_view(res.documents@) =~= seq![doc_view(document)]);
        assert(atts_view(res.attachments@) =~= Seq::<AttView>::empty());
        Ok(res)
    }
}

// ---------------------------------------------------------------------
// Lowering the parsed documents
// ---------------------------------------------------------------------

/// A ReqIF document of an imported artifact, lowered onto a validated
/// requirements graph.
#[derive(Debug, Clone)]
pub struct ImportedReqIfDocument {
    pub entry_name: Option<String>,
    pub graph: RequirementGraph,
}

/// The result of one validated input artifact.
#[derive(Debug, Clone)]
pub struct ReqIfImportResult {
    pub b00t_type: &'static str,
    pub artifact_sha256: String,
    pub artifact_byte_len: usize,
    pub validation: ReqIfValidationIdentity,
    pub documents: Vec<ImportedReqIfDocument>,
    pub attachments: Vec<ReqIfAttachment>,
}

/// What becomes of document `d` given the parser's outcome on its bytes:
/// a parse failure is a `Parse` error with the parser's message; a parsed
/// bundle is lowered under the document's provenance and validated.
pub open spec fn document_outcome(parsed: Result<ReqIfBundle, String>, d: ReqIfDocumentSource, r: Result<GraphV, ReqIfAdapterError>) -> bool {
    match parsed {
        Err(m) => r == Err::<GraphV, ReqIfAdapterError>(ReqIfAdapterError::Parse(m)),
        Ok(b) => lowering_outcome(bundle_v(b), d.lowering, r),
    }
}

/// Document `d` lowers successfully given the parser's outcome.
pub open spec fn document_lowers(parsed: Result<ReqIfBundle, String>, d: ReqIfDocumentSource) -> bool {
    exists|g: GraphV| #[trigger] document_outcome(parsed, d, Ok(g))
}

fn copy_opt_name(o: &Option<String>) -> (r: Option<String>)
    ensures
        opt_view(r) == opt_view(*o),
{
    match o {
        Some(s) => Some(s.clone()),
        None => None,
    }
}

/// The documents an intake read: all of an artifact's, or those read
/// before the intake stopped.
pub open spec fn intake_documents(intake: Result<ReqIfArtifact, ReqIfIntakeStop>) -> Seq<ReqIfDocumentSource> {
    match intake {
        Ok(a) => a.documents@,
        Err(stop) => stop.documents_before@,
    }
}

/// Completes an import begun by [`read_reqif_artifact`]: `parsed[i]` is the
/// ReqIF parser's outcome on the bytes of the `i`-th document read. The
/// documents are lowered and validated in archive order, as the intake
/// reached them, so the first one that does not parse, or whose graph
/// cannot be lowered or is invalid, fails the import with an `Adapter`
/// error, even when the intake went on to stop later; an intake that
/// stopped with every document before the stop lowered fails with the
/// intake's refusal.
pub fn import_reqif_artifact(intake: Result<ReqIfArtifact, ReqIfIntakeStop>, parsed: &[Result<ReqIfBundle, String>]) -> (r: Result<ReqIfImportResult, ReqIfImportError>)
    requires
        parsed@.len() == intake_documents(intake).len(),
    ensures
        match r {
            Ok(res) => {
                &&& intake matches Ok(artifact)
                &&& res.documents@.len() == artifact.documents@.len()
                &&& forall|i: int| 0 <= i < res.documents@.len() ==> {
                    &&& opt_view((#[trigger] res.documents@[i]).entry_name) == opt_view(artifact.documents@[i].entry_name)
                    &&& document_outcome(parsed@[i], artifact.documents@[i], Ok(graph_v(res.documents@[i].graph)))
                }
                &&& res.artifact_sha256@ == artifact.artifact_sha256@
                &&& res.artifact_byte_len == artifact.artifact_byte_len
                &&& res.b00t_type@ == artifact.b00t_type@
                &&& res.validation == validation_identity_spec()
                &&& atts_view(res.attachments@) == atts_view(artifact.attachments@)
            },
            Err(e) => {
                ||| exists|k: int, ae: ReqIfAdapterError| {
                    &&& 0 <= k < intake_documents(intake).len()
                    &&& forall|j: int| 0 <= j < k ==> document_lowers(parsed@[j], #[trigger] intake_documents(intake)[j])
                    &&& #[trigger] document_outcome(parsed@[k], intake_documents(intake)[k], Err(ae))
                    &&& e == ReqIfImportError::Adapter(ae)
                }
                ||| {
                    &&& intake matches Err(stop)
                    &&& e == stop.error
                    &&& forall|j: int| 0 <= j < intake_documents(intake).len()
                        ==> document_lowers(parsed@[j], #[trigger] intake_documents(intake)[j])
                }
            },
        },
{
    let ghost docs0 = intake_documents(intake);
    let source: &Vec<ReqIfDocumentSource> = match &intake {
        Ok(a) => &a.documents,
        Err(stop) => &stop.documents_before,
    };
    assert(source@ == docs0);
    let mut documents: Vec<ImportedReqIfDocument> = Vec::new();
    let mut i: usize = 0;
    while i < source.len()
        invariant
            i <= source@.len(),
            source@ == docs0,
            docs0 == intake_documents(intake),
            parsed@.len() == docs0.len(),
            documents@.len() == i,
            forall|j: int| 0 <= j < i ==> {
                &&& opt_view((#[trigger] documents@[j]).entry_name) == opt_view(docs0[j].entry_name)
                &&& document_outcome(parsed@[j], docs0[j], Ok(graph_v(documents@[j].graph)))
            },
        decreases docs0.len() - i,
    {
        let d = &source[i];
        proof {
            assert forall|j: int| 0 <= j < i implies document_lowers(parsed@[j], #[trigger] docs0[j]) by {
                assert(document_outcome(parsed@[j], docs0[j], Ok(graph_v(documents@[j].graph))));
            }
        }
        match &parsed[i] {
            Err(m) => {
                let e = ReqIfAdapterError::Parse(m.clone());
                assert(document_outcome(parsed@[i as int], docs0[i as int], Err(e)));
                proof {
                    assert forall|j: int| 0 <= j < i implies document_lowers(parsed@[j], #[trigger] intake_documents(intake)[j]) by {
                        assert(document_outcome(parsed@[j], docs0[j], Ok(graph_v(documents@[j].graph))));
                    }
                    assert(document_outcome(parsed@[i as int], intake_documents(intake)[i as int], Err(e)));
                }
                return Err(ReqIfImportError::Adapter(e));
            },
            Ok(b) => match bundle_to_requirement_graph(b, &d.lowering) {
                Ok(g) => {
                    let doc = ImportedReqIfDocument { entry_name: copy_opt_name(&d.entry_name), graph: g };
                    documents.push(doc);
                    proof {
                        assert forall|j: int| 0 <= j < i + 1 implies {
                            &&& opt_view((#[trigger] documents@[j]).entry_name) == opt_view(docs0[j].entry_name)
                            &&& document_outcome(parsed@[j], docs0[j], Ok(graph_v(documents@[j].graph)))
                        } by {
                            if j == i {
                                assert(documents@[j] == doc);
                            }
                        }
                    }
                },
                Err(e) => {
                    assert(document_outcome(parsed@[i as int], docs0[i as int], Err(e)));
                    proof {
                        assert forall|j: int| 0 <= j < i implies document_lowers(parsed@[j], #[trigger] intake_documents(intake)[j]) by {
                            assert(document_outcome(parsed@[j], docs0[j], Ok(graph_v(documents@[j].graph))));
                        }
                        assert(document_outcome(parsed@[i as int], intake_documents(intake)[i as int], Err(e)));
                    }
                    return Err(ReqIfImportError::Adapter(e));
                },
            },
        }
        i = i + 1;
    }
    proof {
        assert forall|j: int| 0 <= j < docs0.len() implies document_lowers(parsed@[j], #[trigger] docs0[j]) by {
            assert(document_outcome(parsed@[j], docs0[j], Ok(graph_v(documents@[j].graph))));
        }
    }
    match intake {
        Ok(artifact) => ReqIfImportResult::from_parts(artifact, documents),
        Err(stop) => Err(stop.error),
    }
}

impl ReqIfImportResult {
    fn from_parts(artifact: ReqIfArtifact, documents: Vec<ImportedReqIfDocument>) -> (r: Result<ReqIfImportResult, ReqIfImportError>)
        ensures
            r matches Ok(res) && res.documents == documents && res.artifact_sha256 == artifact.artifact_sha256
                && res.artifact_byte_len == artifact.artifact_byte_len && res.b00t_type == artifact.b00t_type
                && res.validation == validation_identity_spec() && res.attachments == artifact.attachments,
    {
        Ok(ReqIfImportResult {
            b00t_type: artifact.b00t_type,
            artifact_sha256: artifact.artifact_sha256,
            artifact_byte_len: artifact.artifact_byte_len,
            validation: validation_identity(),
            documents,
            attachments: artifact.attachments,
        })
    }
}

} // verus!
