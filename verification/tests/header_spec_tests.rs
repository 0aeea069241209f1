use std::collections::HashMap;
use tracelens::header_spec::{
    apply_binary_patch, apply_trace_patch, resolve_revision, BinaryHeaderPatch, BinaryHeaderSpec,
    HeaderFieldSpec, SegyFormatSpec, SegySpecDefinition, SpecDocuments, SpecRevision,
    TraceHeaderPatch, TraceHeaderSpec, MAX_SPEC_DEPTH, REV0_SPEC, REV1_SPEC, REV2_SPEC,
};

fn field(key: &str, name: &str, start: u16, end: u16, data_type: &str) -> HeaderFieldSpec {
    HeaderFieldSpec {
        name: name.to_string(),
        field_key: key.to_string(),
        byte_start: start,
        byte_end: end,
        data_type: data_type.to_string(),
        description: format!("{} of the header", name),
        required: false,
        code_mapping: None,
    }
}

fn coded(mut row: HeaderFieldSpec, codes: &[(&str, &str)]) -> HeaderFieldSpec {
    let mut mapping = HashMap::new();
    for (code, label) in codes {
        mapping.insert(code.to_string(), label.to_string());
    }
    row.code_mapping = Some(mapping);
    row
}

fn rev0() -> SegySpecDefinition {
    SegySpecDefinition {
        version: "SEG-Y Rev 0 (1975)".to_string(),
        reference: "SEG-Y rev 0 standard, 1975".to_string(),
        extends: None,
        binary_header: Some(BinaryHeaderPatch {
            size: Some(400),
            byte_offset: Some(3200),
            fields: Some(vec![
                field("job_id", "Job ID", 3201, 3204, "int32"),
                field("line_number", "Line Number", 3205, 3208, "int32"),
                field("sample_interval_us", "Sample Interval", 3217, 3218, "int16"),
                field("samples_per_trace", "Samples per Trace", 3221, 3222, "int16"),
                coded(
                    field("data_sample_format", "Data Sample Format", 3225, 3226, "int16"),
                    &[
                        ("1", "IBM Float32"),
                        ("2", "Int32"),
                        ("3", "Int16"),
                        ("4", "Fixed Point with Gain"),
                    ],
                ),
            ]),
            overrides: None,
        }),
        trace_header: Some(TraceHeaderPatch {
            size: Some(240),
            fields: Some(vec![
                field("trace_seq_line", "Trace Sequence in Line", 1, 4, "int32"),
                field("num_samples", "Number of Samples", 115, 116, "int16"),
            ]),
            overrides: None,
        }),
    }
}

fn rev1() -> SegySpecDefinition {
    SegySpecDefinition {
        version: "SEG-Y Rev 1.0 (2002)".to_string(),
        reference: "SEG-Y rev 1 standard, 2002".to_string(),
        extends: Some(REV0_SPEC.to_string()),
        binary_header: Some(BinaryHeaderPatch {
            size: None,
            byte_offset: None,
            fields: Some(vec![
                field("segy_revision", "SEG-Y Revision", 3501, 3502, "uint16"),
                field("extended_textual_headers", "Extended Textual Headers", 3505, 3506, "int16"),
            ]),
            overrides: Some(vec![coded(
                field("data_sample_format", "Data Sample Format", 3225, 3226, "int16"),
                &[("1", "IBM Float32"), ("5", "IEEE Float32"), ("8", "Int8")],
            )]),
        }),
        trace_header: Some(TraceHeaderPatch {
            size: None,
            fields: Some(vec![field("cdp_x", "CDP X", 181, 184, "int32")]),
            overrides: None,
        }),
    }
}

fn rev2() -> SegySpecDefinition {
    SegySpecDefinition {
        version: "SEG-Y Rev 2.0 (2017)".to_string(),
        reference: "SEG-Y rev 2 standard, 2017".to_string(),
        extends: Some(REV1_SPEC.to_string()),
        binary_header: Some(BinaryHeaderPatch {
            size: None,
            byte_offset: None,
            fields: Some(vec![
                field("max_extended_trace_headers", "Max Extended Trace Headers", 3507, 3510, "int32"),
                field("time_basis_code", "Time Basis Code", 3511, 3512, "int16"),
            ]),
            overrides: None,
        }),
        trace_header: None,
    }
}

fn rev21() -> SegySpecDefinition {
    SegySpecDefinition {
        version: "SEG-Y Rev 2.1 (2023)".to_string(),
        reference: "SEG-Y rev 2.1 standard, 2023".to_string(),
        extends: Some(REV2_SPEC.to_string()),
        binary_header: Some(BinaryHeaderPatch {
            size: None,
            byte_offset: None,
            fields: None,
            overrides: Some(vec![
                field("max_extended_trace_headers", "Max Extended Trace Headers", 3507, 3508, "int16"),
                field("survey_type", "Survey Type", 3509, 3510, "int16"),
            ]),
        }),
        trace_header: None,
    }
}

fn documents() -> SpecDocuments {
    SpecDocuments { rev0: rev0(), rev1: rev1(), rev2: rev2(), rev21: rev21() }
}

fn keys(fields: &[HeaderFieldSpec]) -> Vec<String> {
    fields.iter().map(|f| f.field_key.clone()).collect()
}

#[test]
fn test_load_spec() {
    let spec = SegyFormatSpec::load_rev0(&documents()).expect("Failed to load spec");
    assert_eq!(spec.version, "SEG-Y Rev 0 (1975)");
    assert!(!spec.binary_header.fields.is_empty());
    assert!(!spec.trace_header.fields.is_empty());
}

#[test]
fn test_binary_header_fields() {
    let spec = SegyFormatSpec::load_rev0(&documents()).unwrap();
    let fields = spec.get_binary_header_fields();

    // Check job_id field exists
    let job_id = fields.iter().find(|f| f.field_key == "job_id").unwrap();
    assert_eq!(job_id.byte_start, 3201);
    assert_eq!(job_id.byte_end, 3204);
    assert_eq!(job_id.data_type, "int32");
}

#[test]
fn test_code_mappings() {
    let spec = SegyFormatSpec::load_rev0(&documents()).unwrap();
    let fields = spec.get_binary_header_fields();

    // Check data_sample_format has code mappings
    let format_field = fields
        .iter()
        .find(|f| f.field_key == "data_sample_format")
        .unwrap();

    assert!(format_field.code_mapping.is_some());
    let codes = format_field.code_mapping.as_ref().unwrap();
    assert_eq!(codes.get("1"), Some(&"IBM Float32".to_string()));
}

#[test]
fn test_load_revision_spec() {
    let rev1 = SegyFormatSpec::load_for_revision(&documents(), 0x0100).unwrap();
    assert_eq!(rev1.version, "SEG-Y Rev 1.0 (2002)");

    let rev2 = SegyFormatSpec::load_for_revision(&documents(), 0x0201).unwrap();
    assert_eq!(rev2.version, "SEG-Y Rev 2.1 (2023)");
}

#[test]
fn test_rev21_overrides() {
    let spec = SegyFormatSpec::load_rev21(&documents()).unwrap();
    let max_ext = spec
        .binary_header
        .fields
        .iter()
        .find(|field| field.field_key == "max_extended_trace_headers")
        .unwrap();
    assert_eq!(max_ext.byte_start, 3507);
    assert_eq!(max_ext.byte_end, 3508);
    assert_eq!(max_ext.data_type, "int16");

    let survey = spec
        .binary_header
        .fields
        .iter()
        .find(|field| field.field_key == "survey_type")
        .unwrap();
    assert_eq!(survey.byte_start, 3509);
}

#[test]
fn rev21_keeps_what_its_patch_does_not_mention() {
    let rev2 = SegyFormatSpec::load_rev2(&documents()).unwrap();
    let rev21 = SegyFormatSpec::load_rev21(&documents()).unwrap();
    // The override stands where the field stood; the new key is appended.
    let mut expected = keys(&rev2.binary_header.fields);
    expected.push("survey_type".to_string());
    assert_eq!(keys(&rev21.binary_header.fields), expected);
    for (old, new) in rev2.binary_header.fields.iter().zip(rev21.binary_header.fields.iter()) {
        if old.field_key == "max_extended_trace_headers" {
            assert_eq!((old.byte_start, old.byte_end), (3507, 3510));
            assert_eq!((new.byte_start, new.byte_end), (3507, 3508));
        } else {
            assert_eq!(old.name, new.name);
            assert_eq!(old.byte_start, new.byte_start);
            assert_eq!(old.byte_end, new.byte_end);
            assert_eq!(old.data_type, new.data_type);
            assert_eq!(old.code_mapping, new.code_mapping);
        }
    }
    assert_eq!(keys(&rev21.trace_header.fields), keys(&rev2.trace_header.fields));
    assert_eq!(rev21.binary_header.size, 400);
    assert_eq!(rev21.binary_header.byte_offset, 3200);
    assert_eq!(rev21.trace_header.size, 240);
    assert_eq!(rev21.reference, "SEG-Y rev 2.1 standard, 2023");
}

#[test]
fn rev1_adds_fields_and_overrides_in_place() {
    let spec = SegyFormatSpec::load_rev1(&documents()).unwrap();
    assert_eq!(
        keys(&spec.binary_header.fields),
        vec![
            "job_id",
            "line_number",
            "sample_interval_us",
            "samples_per_trace",
            "data_sample_format",
            "segy_revision",
            "extended_textual_headers"
        ]
    );
    let format = &spec.binary_header.fields[4];
    let codes = format.code_mapping.as_ref().unwrap();
    assert_eq!(codes.get("5"), Some(&"IEEE Float32".to_string()));
    assert_eq!(codes.get("2"), None);
    assert_eq!(
        keys(&spec.get_trace_header_fields()),
        vec!["trace_seq_line", "num_samples", "cdp_x"]
    );
}

#[test]
fn revision_codes_resolve() {
    assert_eq!(resolve_revision(0x0000), SpecRevision::Rev0);
    assert_eq!(resolve_revision(0x0001), SpecRevision::Rev1);
    assert_eq!(resolve_revision(0x0002), SpecRevision::Rev2);
    assert_eq!(resolve_revision(0x0003), SpecRevision::Rev0);
    assert_eq!(resolve_revision(0x00FF), SpecRevision::Rev0);
    assert_eq!(resolve_revision(0x0100), SpecRevision::Rev1);
    assert_eq!(resolve_revision(0x01FF), SpecRevision::Rev1);
    assert_eq!(resolve_revision(0x0200), SpecRevision::Rev2);
    assert_eq!(resolve_revision(0x0201), SpecRevision::Rev21);
    assert_eq!(resolve_revision(0x0202), SpecRevision::Rev2);
    assert_eq!(resolve_revision(0x0300), SpecRevision::Rev0);
    assert_eq!(resolve_revision(0xFFFF), SpecRevision::Rev0);
    let docs = documents();
    assert_eq!(SegyFormatSpec::load_for_revision(&docs, 0).unwrap().version, "SEG-Y Rev 0 (1975)");
    assert_eq!(SegyFormatSpec::load_for_revision(&docs, 2).unwrap().version, "SEG-Y Rev 2.0 (2017)");
    assert_eq!(
        SegyFormatSpec::load_for_revision(&docs, 0x0900).unwrap().version,
        "SEG-Y Rev 0 (1975)"
    );
}

#[test]
fn incomplete_base_document_is_an_error() {
    let mut docs = documents();
    docs.rev0.trace_header = None;
    assert_eq!(
        SegyFormatSpec::load_rev0(&docs).unwrap_err(),
        "Base SEG-Y spec missing trace header"
    );
    assert!(SegyFormatSpec::load_rev21(&docs).is_err());
    let mut docs = documents();
    docs.rev0.binary_header.as_mut().unwrap().size = None;
    assert_eq!(
        SegyFormatSpec::load_rev0(&docs).unwrap_err(),
        "Base SEG-Y spec missing binary header size"
    );
    let mut docs = documents();
    docs.rev0.binary_header.as_mut().unwrap().fields = None;
    assert!(SegyFormatSpec::load_rev1(&docs).is_err());
}

#[test]
fn unknown_parent_and_circular_extends_are_errors() {
    let mut docs = documents();
    docs.rev1.extends = Some("segy_rev9_spec.json".to_string());
    assert_eq!(
        SegyFormatSpec::load_rev1(&docs).unwrap_err(),
        "Unknown SEG-Y spec: segy_rev9_spec.json"
    );
    let mut docs = documents();
    docs.rev0.extends = Some("segy_rev21_spec.json".to_string());
    assert!(SegyFormatSpec::load_rev0(&docs).is_err());
    assert!(SegyFormatSpec::load_rev21(&docs).is_err());
}

#[test]
fn materialize_a_definition_directly() {
    let docs = documents();
    let spec = SegyFormatSpec::materialize_definition(&docs, &rev1(), MAX_SPEC_DEPTH).unwrap();
    assert_eq!(spec.version, "SEG-Y Rev 1.0 (2002)");
    assert_eq!(spec.binary_header.fields.len(), 7);
    assert!(SegyFormatSpec::materialize_definition(&docs, &rev1(), 0).is_err());
}

#[test]
fn patches_replace_sizes_append_fields_and_override_by_key() {
    let mut target = BinaryHeaderSpec {
        size: 400,
        byte_offset: 3200,
        fields: vec![field("a", "A", 1, 2, "int16"), field("b", "B", 3, 4, "int16")],
    };
    apply_binary_patch(
        &mut target,
        BinaryHeaderPatch {
            size: Some(500),
            byte_offset: None,
            fields: Some(vec![field("c", "C", 5, 6, "int16")]),
            overrides: Some(vec![
                field("b", "B2", 30, 40, "int32"),
                field("d", "D", 7, 8, "int16"),
                field("d", "D2", 9, 10, "int16"),
                field("c", "C2", 50, 60, "int16"),
            ]),
        },
    );
    assert_eq!(target.size, 500);
    assert_eq!(target.byte_offset, 3200);
    let names: Vec<&str> = target.fields.iter().map(|f| f.name.as_str()).collect();
    assert_eq!(names, vec!["A", "B2", "C2", "D2"]);
    assert_eq!(target.fields[1].byte_start, 30);

    let mut trace = TraceHeaderSpec { size: 240, fields: vec![field("a", "A", 1, 2, "int16")] };
    apply_trace_patch(
        &mut trace,
        TraceHeaderPatch { size: None, fields: None, overrides: None },
    );
    assert_eq!(trace.size, 240);
    assert_eq!(keys(&trace.fields), vec!["a"]);
    apply_trace_patch(
        &mut trace,
        TraceHeaderPatch {
            size: Some(250),
            fields: Some(vec![field("a", "A again", 3, 4, "int16")]),
            overrides: Some(vec![field("a", "A first", 5, 6, "int16")]),
        },
    );
    assert_eq!(trace.size, 250);
    let names: Vec<&str> = trace.fields.iter().map(|f| f.name.as_str()).collect();
    assert_eq!(names, vec!["A first", "A again"]);
    let copy = trace.fields[0].clone();
    assert_eq!(copy.name, "A first");
    assert_eq!(copy.byte_end, 6);
}
