use colmenar::client::{build_path, build_query, flatten_query_value, replace_all,
    request_headers, QueryValue};
use colmenar::enumeration::{enum_variants, variant_name};
use colmenar::naming::{safe_name, to_snake_case, to_upper_camel_case};
use colmenar::property::Property;
use colmenar::ref_name;
use colmenar::resource::Resource;
use heck::ToUpperCamelCase;

#[test]
fn reference_resolves_to_final_segment() {
    assert_eq!(ref_name("#/components/schemas/Environment").unwrap(), "Environment");
    assert_eq!(ref_name("Plain").unwrap(), "Plain");
}

#[test]
fn reference_with_empty_final_segment_is_malformed() {
    assert!(ref_name("#/components/schemas/").is_err());
    assert!(ref_name("").is_err());
}

#[test]
fn path_substitution_fills_placeholders() {
    let params = vec![("id".to_string(), "abc".to_string())];
    assert_eq!(build_path("/v1/environments/{id}", &params), "/v1/environments/abc");
}

#[test]
fn path_substitution_handles_several_parameters() {
    let params = vec![
        ("hub".to_string(), "h-1".to_string()),
        ("id".to_string(), "e-2".to_string()),
    ];
    assert_eq!(build_path("/v1/hubs/{hub}/envs/{id}", &params), "/v1/hubs/h-1/envs/e-2");
}

#[test]
fn replace_all_replaces_every_occurrence() {
    assert_eq!(replace_all("a-b-c", "-", "+"), "a+b+c");
    assert_eq!(replace_all("aaa", "aa", "b"), "ba");
    assert_eq!(replace_all("none", "x", "y"), "none");
}

#[test]
fn unversioned_path_strips_version_prefix() {
    let r = Resource { path: "/v1/environments".to_string(), operations: vec![] };
    assert_eq!(r.unversioned_path(), "environments");
}

#[test]
fn list_query_value_flattens_to_comma_joined_field() {
    let params = vec![(
        "field".to_string(),
        Some(QueryValue::Many(vec!["a".to_string(), "b".to_string()])),
    )];
    assert_eq!(build_query(&params), "field=a%2Cb");
}

#[test]
fn absent_query_values_are_skipped() {
    let params = vec![
        ("skip".to_string(), None),
        ("page".to_string(), Some(QueryValue::Single("2".to_string()))),
    ];
    assert_eq!(build_query(&params), "page=2");
}

#[test]
fn query_pairs_keep_declaration_order() {
    let params = vec![
        ("b".to_string(), Some(QueryValue::Single("2".to_string()))),
        ("a".to_string(), Some(QueryValue::Single("1".to_string()))),
    ];
    assert_eq!(build_query(&params), "b=2&a=1");
}

#[test]
fn flatten_keeps_single_values_untouched() {
    assert_eq!(flatten_query_value(&QueryValue::Single("x y".to_string())), "x y");
    assert_eq!(
        flatten_query_value(&QueryValue::Many(vec![
            "a".to_string(),
            "b".to_string(),
            "c".to_string()
        ])),
        "a,b,c"
    );
}

#[test]
fn fixed_headers_carry_token_and_hub() {
    let hs = request_headers("tok", "hub-1");
    assert_eq!(hs.len(), 3);
    assert_eq!(hs[0], ("user-agent".to_string(), "cycle/1.0.0".to_string()));
    assert_eq!(hs[1], ("authorization".to_string(), "Bearer tok".to_string()));
    assert_eq!(hs[2], ("x-hub-id".to_string(), "hub-1".to_string()));
}

#[test]
fn variant_identifiers_map_back_to_wire_literals() {
    let pairs = enum_variants(
        "Capability",
        &vec!["value-one".to_string(), "value-two".to_string()],
    );
    assert_eq!(
        pairs,
        vec![
            ("value-one".to_string(), "ValueOne".to_string()),
            ("value-two".to_string(), "ValueTwo".to_string()),
        ]
    );
}

#[test]
fn leading_digit_variant_is_prefixed_with_model_name() {
    assert_eq!(
        variant_name("Size", "2xlarge"),
        "Size2xlarge".to_upper_camel_case()
    );
    assert_eq!(variant_name("Size", "small"), "Small");
}

#[test]
fn keyword_property_names_are_escaped_but_preserved() {
    let p = Property::new("type");
    assert_eq!(p.name, "type");
    assert_eq!(p.safe_name, "r#type");
    let q = Property::new("displayName");
    assert_eq!(q.name, "displayName");
    assert_eq!(q.safe_name, "display_name");
}

#[test]
fn case_conversions_match_the_identifier_rules() {
    assert_eq!(to_snake_case("GetEnvironments"), "get_environments");
    assert_eq!(to_upper_camel_case("get_environments_request"), "GetEnvironmentsRequest");
    assert_eq!(safe_name("match"), "r#match");
    assert_eq!(safe_name("name"), "name");
}
