use wuwa_fps_unlocker::edit::Policy;
use wuwa_fps_unlocker::error::PatchError;
use wuwa_fps_unlocker::json::parse;
use wuwa_fps_unlocker::patch::{patch_document, patch_record, patch_stored};

const RECORD: &str = r#"{"KeyCustomFrameRate": 60, "KeyPcVsync": 1, "Unknown": "x"}"#;

#[test]
fn editing_the_frame_rate_end_to_end() {
    let patched = patch_record(RECORD, 120, Policy::Permissive).unwrap();
    assert_eq!(patched, r#"{"KeyCustomFrameRate":120,"KeyPcVsync":0,"Unknown":"x"}"#);
    let expected = parse(r#"{"KeyCustomFrameRate": 120, "KeyPcVsync": 0, "Unknown": "x"}"#);
    assert_eq!(parse(&patched), expected);
    assert_eq!(patch_record(RECORD, 120, Policy::Strict), Ok(patched));
}

#[test]
fn patching_keeps_fields_it_does_not_know() {
    let raw = r#"{"KeyQualityLevel":3,"KeyCustomFrameRate":60.0,"KeyPcVsync":1.0,"KeyNvidiaSuperSamplingSharpness":0.50,"Future":{"list":[1,2,{"deep":null}],"text":"a\"b"},"WalkOrRunRate":1e-1,"Flag":true}"#;
    let patched = patch_record(raw, 144, Policy::Strict).unwrap();
    assert_eq!(
        patched,
        r#"{"KeyQualityLevel":3,"KeyCustomFrameRate":144,"KeyPcVsync":0,"KeyNvidiaSuperSamplingSharpness":0.50,"Future":{"list":[1,2,{"deep":null}],"text":"a\"b"},"WalkOrRunRate":1e-1,"Flag":true}"#
    );
}

#[test]
fn patch_document_matches_patch_record() {
    let doc = parse(RECORD).unwrap();
    assert_eq!(
        patch_document(&doc, 240, Policy::Strict),
        Ok(r#"{"KeyCustomFrameRate":240,"KeyPcVsync":0,"Unknown":"x"}"#.to_string())
    );
    assert_eq!(patch_document(&doc, 0, Policy::Strict), Err(PatchError::InvalidFrameRate));
    assert_eq!(doc, parse(RECORD).unwrap());
}

#[test]
fn patch_record_reports_each_failure() {
    assert_eq!(patch_record("[1]", 120, Policy::Permissive), Err(PatchError::MalformedDocument));
    assert_eq!(patch_record("[1]", 0, Policy::Permissive), Err(PatchError::MalformedDocument));
    assert_eq!(patch_record(RECORD, 0, Policy::Permissive), Err(PatchError::InvalidFrameRate));
    assert_eq!(patch_record(RECORD, 1001, Policy::Strict), Err(PatchError::InvalidFrameRate));
    assert_eq!(patch_record(RECORD, -5, Policy::Strict), Err(PatchError::InvalidFrameRate));
    assert_eq!(
        patch_record(r#"{"KeyCustomFrameRate":60}"#, 120, Policy::Strict),
        Err(PatchError::UnknownFieldPolicyViolation)
    );
    assert_eq!(
        patch_record(r#"{"KeyCustomFrameRate":60}"#, 120, Policy::Permissive),
        Ok(r#"{"KeyCustomFrameRate":120,"KeyPcVsync":0}"#.to_string())
    );
    assert_eq!(
        patch_record("{}", 1000, Policy::Permissive),
        Ok(r#"{"KeyCustomFrameRate":1000,"KeyPcVsync":0}"#.to_string())
    );
}

#[test]
fn patch_stored_reports_a_missing_record() {
    assert_eq!(patch_stored(None, 120, Policy::Permissive), Err(PatchError::RecordNotFound));
    assert_eq!(patch_stored(None, 0, Policy::Strict), Err(PatchError::RecordNotFound));
    assert_eq!(
        patch_stored(Some(RECORD), 30, Policy::Strict),
        Ok(r#"{"KeyCustomFrameRate":30,"KeyPcVsync":0,"Unknown":"x"}"#.to_string())
    );
    assert_eq!(patch_stored(Some("x"), 30, Policy::Strict), Err(PatchError::MalformedDocument));
}

#[test]
fn the_patched_text_reads_as_the_edited_document() {
    let raw = r#"{"A":[1,2],"KeyPcVsync":1,"B":"b","KeyCustomFrameRate":60.0,"C":2.5e+1}"#;
    let before = parse(raw).unwrap();
    let text = patch_record(raw, 165, Policy::Strict).unwrap();
    let after = parse(&text).unwrap();
    assert_eq!(after.len(), before.len());
    let mut at = 0;
    while at < before.len() {
        let name = &before.field(at).name;
        assert_eq!(&after.field(at).name, name);
        if name == "KeyCustomFrameRate" {
            assert_eq!(after.field(at).value.as_integer(), Some(165));
        } else if name == "KeyPcVsync" {
            assert_eq!(after.field(at).value.as_integer(), Some(0));
        } else {
            assert_eq!(after.field(at).value, before.field(at).value);
        }
        at += 1;
    }
}
