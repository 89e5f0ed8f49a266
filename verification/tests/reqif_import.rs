use std::io::{Cursor, Write};

use kr0ki_core::cache::sha256_hex;
use kr0ki_core::reqif_adapter::ReqIfAdapterError;
use kr0ki_core::reqif_bundle::{ReqIfBundle, ReqIfContent, ReqIfHeader};
use kr0ki_core::reqif_import::{
    import_reqif_artifact, read_reqif_artifact, is_reqif_document, is_zip, reserve_expanded, validation_identity, ReqIfImportConfig,
    ReqIfImportError, B00T_REQIF_INTAKE_INTERFACE, REQRS_PARSER_VERSION, REQUIREMENT_GRAPH_CONTRACT_VERSION,
};
use zip::write::{SimpleFileOptions, ZipWriter};

const MINIMAL_REQIF: &[u8] = b"<?xml version=\"1.0\" encoding=\"UTF-8\"?>\n<REQ-IF xmlns=\"http://www.omg.org/spec/ReqIF/20110401/reqif.xsd\"><THE-HEADER><REQ-IF-HEADER IDENTIFIER=\"BL-MINIMAL\"/></THE-HEADER><CORE-CONTENT><REQ-IF-CONTENT/></CORE-CONTENT></REQ-IF>\n";

fn archive(entries: &[(&str, &[u8])]) -> Vec<u8> {
    let mut bytes = Vec::new();
    {
        let mut archive = ZipWriter::new(Cursor::new(&mut bytes));
        let options = SimpleFileOptions::default();
        for (name, data) in entries {
            archive.start_file(*name, options).unwrap();
            archive.write_all(data).unwrap();
        }
        archive.finish().unwrap();
    }
    bytes
}

#[test]
fn rejects_artifacts_over_the_configured_upload_limit() {
    let config = ReqIfImportConfig {
        max_artifact_bytes: MINIMAL_REQIF.len() - 1,
        ..ReqIfImportConfig::default()
    };
    let error = read_reqif_artifact(MINIMAL_REQIF, &config).unwrap_err().error;
    assert!(matches!(error, ReqIfImportError::ArtifactTooLarge { .. }));
    assert_eq!(
        error,
        ReqIfImportError::ArtifactTooLarge { actual: MINIMAL_REQIF.len(), maximum: MINIMAL_REQIF.len() - 1 }
    );
}

#[test]
fn imports_reqifz_and_inventories_attachments() {
    let bytes = archive(&[("baseline.reqif", MINIMAL_REQIF), ("evidence.txt", b"review evidence")]);
    let imported = read_reqif_artifact(&bytes, &ReqIfImportConfig::default()).unwrap();
    assert_eq!(imported.documents.len(), 1);
    assert_eq!(
        imported.documents[0].entry_name.as_deref(),
        Some("baseline.reqif")
    );
    assert_eq!(imported.attachments.len(), 1);
    assert_eq!(imported.attachments[0].entry_name, "evidence.txt");
    assert_eq!(imported.attachments[0].byte_len, b"review evidence".len());
    assert_eq!(imported.attachments[0].sha256, sha256_hex(b"review evidence"));
    assert_eq!(imported.documents[0].bytes, MINIMAL_REQIF);
    assert_eq!(
        imported.documents[0].lowering.source_uri,
        format!("urn:sha256:{}#baseline.reqif", imported.artifact_sha256)
    );
}

#[test]
fn rejects_reqifz_that_exceeds_the_expanded_limit() {
    let bytes = archive(&[("baseline.reqif", MINIMAL_REQIF), ("large-attachment.bin", &[0; 128])]);
    let config = ReqIfImportConfig {
        max_expanded_bytes: MINIMAL_REQIF.len(),
        ..ReqIfImportConfig::default()
    };
    let error = read_reqif_artifact(&bytes, &config).unwrap_err().error;
    assert!(matches!(error, ReqIfImportError::ExpandedTooLarge { .. }));
}

#[test]
fn rejects_reqifz_with_too_many_entries_before_reading_them() {
    let bytes = archive(&[("one.txt", b"1"), ("two.txt", b"2")]);
    let config = ReqIfImportConfig {
        max_archive_entries: 1,
        ..ReqIfImportConfig::default()
    };
    let error = read_reqif_artifact(&bytes, &config).unwrap_err().error;
    assert!(matches!(
        error,
        ReqIfImportError::TooManyArchiveEntries { .. }
    ));
}

#[test]
fn an_archive_without_documents_is_refused() {
    let bytes = archive(&[("readme.txt", b"hello")]);
    assert_eq!(
        read_reqif_artifact(&bytes, &ReqIfImportConfig::default()).unwrap_err().error,
        ReqIfImportError::NoDocuments
    );
}

#[test]
fn a_plain_document_carries_digest_provenance_and_validation_identity() {
    let imported = read_reqif_artifact(MINIMAL_REQIF, &ReqIfImportConfig::default()).unwrap();
    let digest = sha256_hex(MINIMAL_REQIF);
    assert_eq!(imported.artifact_sha256, digest);
    assert_eq!(imported.artifact_byte_len, MINIMAL_REQIF.len());
    assert_eq!(imported.b00t_type, B00T_REQIF_INTAKE_INTERFACE);
    assert_eq!(imported.documents.len(), 1);
    assert_eq!(imported.documents[0].entry_name, None);
    assert_eq!(imported.documents[0].lowering.source_uri, format!("urn:sha256:{digest}"));
    assert_eq!(imported.documents[0].lowering.revision, format!("sha256:{digest}"));
    assert_eq!(imported.documents[0].lowering.import_artifact_sha256.as_deref(), Some(digest.as_str()));
    assert!(imported.attachments.is_empty());

    let config = ReqIfImportConfig {
        source_uri: Some("https://example.com/spec.reqif".into()),
        revision: Some("r7".into()),
        ..ReqIfImportConfig::default()
    };
    let again = read_reqif_artifact(MINIMAL_REQIF, &config).unwrap();
    assert_eq!(again.documents[0].lowering.source_uri, "https://example.com/spec.reqif");
    assert_eq!(again.documents[0].lowering.revision, "r7");
}

#[test]
fn format_detection_and_budget() {
    assert!(is_zip(b"PK\x03\x04rest"));
    assert!(is_zip(b"PK\x05\x06"));
    assert!(!is_zip(b"PK\x03"));
    assert!(!is_zip(b"<?xml"));
    assert!(is_reqif_document("a/b.ReqIF"));
    assert!(is_reqif_document("doc.xml"));
    assert!(!is_reqif_document("doc.txt"));
    assert!(!is_reqif_document("reqif"));
    let mut used = 10usize;
    assert_eq!(reserve_expanded(&mut used, 5, 15), Ok(()));
    assert_eq!(used, 15);
    assert_eq!(reserve_expanded(&mut used, 1, 15), Err(ReqIfImportError::ExpandedTooLarge { maximum: 15 }));
    assert_eq!(used, 15);
    assert!(reserve_expanded(&mut used, usize::MAX, usize::MAX).is_err());
}

/// What the ReqIF parser gives for a document with a header and an empty
/// `<REQ-IF-CONTENT>`.
fn empty_bundle(header: &str) -> ReqIfBundle {
    ReqIfBundle {
        encoding: Some("UTF-8".to_string()),
        namespace: None,
        header: Some(ReqIfHeader { identifier: header.to_string() }),
        content: Some(ReqIfContent { data_types: Vec::new(), spec_types: Vec::new(), spec_objects: Vec::new(), spec_relations: Vec::new() }),
    }
}

#[test]
fn imports_namespace_less_reqif_with_digest_provenance() {
    let bytes: &[u8] = b"<?xml version=\"1.0\" encoding=\"UTF-8\"?><REQ-IF><THE-HEADER><REQ-IF-HEADER IDENTIFIER=\"BL-NO-NAMESPACE\"/></THE-HEADER><CORE-CONTENT><REQ-IF-CONTENT/></CORE-CONTENT></REQ-IF>";
    let artifact = read_reqif_artifact(bytes, &ReqIfImportConfig::default()).expect("within limits");
    let imported = import_reqif_artifact(Ok(artifact), &[Ok(empty_bundle("BL-NO-NAMESPACE"))]).expect("namespace-less ReqIF imports");
    let repeated = import_reqif_artifact(
        read_reqif_artifact(bytes, &ReqIfImportConfig::default()),
        &[Ok(empty_bundle("BL-NO-NAMESPACE"))],
    )
    .expect("the same artifact remains reproducible");

    assert_eq!(imported.documents.len(), 1);
    assert_eq!(imported.documents[0].graph.baseline.id, "BL-NO-NAMESPACE");
    assert_eq!(
        imported.documents[0].graph.baseline.import_artifact_sha256.as_deref(),
        Some(imported.artifact_sha256.as_str())
    );
    assert_eq!(imported.documents[0].graph.requirements.len(), 0, "minimal interchange fixture is a valid empty baseline");
    assert_eq!(imported.documents[0].graph, repeated.documents[0].graph);
    assert_eq!(imported.validation.parser, "reqrs");
    assert_eq!(imported.validation.parser_version, REQRS_PARSER_VERSION);
    assert_eq!(imported.validation.normalized_graph_contract, REQUIREMENT_GRAPH_CONTRACT_VERSION);
    assert_eq!(validation_identity(), imported.validation);
}

#[test]
fn rejects_malformed_xml_with_a_typed_parse_error() {
    let bytes: &[u8] = b"<REQ-IF><CORE-CONTENT>";
    let artifact = read_reqif_artifact(bytes, &ReqIfImportConfig::default()).expect("within limits");
    let error = import_reqif_artifact(Ok(artifact), &[Err("unexpected end of document".to_string())]).unwrap_err();
    assert!(matches!(error, ReqIfImportError::Adapter(ReqIfAdapterError::Parse(_))));
}

#[test]
fn a_document_without_content_fails_the_import() {
    let artifact = read_reqif_artifact(MINIMAL_REQIF, &ReqIfImportConfig::default()).unwrap();
    let mut bundle = empty_bundle("EMPTY");
    bundle.content = None;
    let error = import_reqif_artifact(Ok(artifact), &[Ok(bundle)]).unwrap_err();
    assert_eq!(error, ReqIfImportError::Adapter(ReqIfAdapterError::MissingContent));
}

#[test]
fn a_bad_document_before_a_refused_entry_fails_with_its_own_error() {
    let bytes = archive(&[("baseline.reqif", MINIMAL_REQIF), ("large-attachment.bin", &[0; 128])]);
    let config = ReqIfImportConfig { max_expanded_bytes: MINIMAL_REQIF.len(), ..ReqIfImportConfig::default() };
    let intake = read_reqif_artifact(&bytes, &config);
    let stop = intake.as_ref().unwrap_err();
    assert!(matches!(stop.error, ReqIfImportError::ExpandedTooLarge { .. }));
    assert_eq!(stop.documents_before.len(), 1);
    assert_eq!(stop.documents_before[0].entry_name.as_deref(), Some("baseline.reqif"));
    let error = import_reqif_artifact(intake.clone(), &[Err("bad".to_string())]).unwrap_err();
    assert_eq!(error, ReqIfImportError::Adapter(ReqIfAdapterError::Parse("bad".to_string())));
    let error = import_reqif_artifact(intake, &[Ok(empty_bundle("BL"))]).unwrap_err();
    assert!(matches!(error, ReqIfImportError::ExpandedTooLarge { .. }));
}
