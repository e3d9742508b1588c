use hearthcoach_harness::harness::available_tribes::{
    tribes_from_query_output, tribes_from_values, AvailableTribesError, HearthMirrorAvailableTribesProvider,
};

#[test]
fn json_array_of_race_names_becomes_sorted_tribes() {
    let out = tribes_from_query_output(true, "\u{feff}[\"naga\", \"Mechanical\", \"dragon\", \"MECH\"]\r\n", "")
        .expect("valid output");
    assert_eq!(
        out,
        Some(vec!["DRAGON".to_string(), "MECH".to_string(), "NAGA".to_string()])
    );
}

#[test]
fn single_json_string_is_accepted() {
    let out = tribes_from_query_output(true, "\"quilboar\"", "").expect("valid output");
    assert_eq!(out, Some(vec!["QUILLBOAR".to_string()]));
}

#[test]
fn empty_or_null_output_means_no_tribes() {
    assert!(matches!(tribes_from_query_output(true, "  \n", ""), Ok(None)));
    assert!(matches!(tribes_from_query_output(true, "null", ""), Ok(None)));
    assert!(matches!(tribes_from_query_output(true, "[\"ALL\", \"0\"]", ""), Ok(None)));
}

#[test]
fn malformed_output_is_a_json_error() {
    assert!(matches!(
        tribes_from_query_output(true, "[DRAGON", ""),
        Err(AvailableTribesError::Json(_))
    ));
}

#[test]
fn failed_query_reports_its_error_output() {
    match tribes_from_query_output(false, " partial ", "  access denied \n") {
        Err(AvailableTribesError::PowerShellFailed(message)) => assert_eq!(message, "access denied"),
        other => panic!("unexpected {other:?}"),
    }
    match tribes_from_query_output(false, " partial ", "  ") {
        Err(AvailableTribesError::PowerShellFailed(message)) => assert_eq!(message, "partial"),
        other => panic!("unexpected {other:?}"),
    }
}

#[test]
fn values_naming_no_tribe_give_none() {
    assert_eq!(tribes_from_values(&vec!["".to_string(), "invalid".to_string()]), None);
    assert_eq!(
        tribes_from_values(&vec!["24".to_string(), "17".to_string()]),
        Some(vec!["DRAGON".to_string(), "MECH".to_string()])
    );
}

#[test]
fn provider_needs_a_located_dll() {
    let provider = HearthMirrorAvailableTribesProvider::auto(Some("C:\\HDT\\HearthMirror.dll".to_string()))
        .expect("located");
    assert_eq!(provider.dll_path(), "C:\\HDT\\HearthMirror.dll");
    assert!(matches!(
        HearthMirrorAvailableTribesProvider::auto(None),
        Err(AvailableTribesError::HearthMirrorNotFound)
    ));
}
