use pcli2::api::{field_assignment, page_url, paging_split, request_method, tenant_path};

#[test]
fn every_tenant_placeholder_is_replaced() {
    let t = uuid::Uuid::parse_str("11111111-2222-3333-4444-555555555555").unwrap();
    assert_eq!(
        tenant_path("/tenants/{tenantId}/assets?x={tenantId}", t.as_u128()),
        "/tenants/11111111-2222-3333-4444-555555555555/assets?x=11111111-2222-3333-4444-555555555555"
    );
    assert_eq!(tenant_path("/health", t.as_u128()), "/health");
    assert_eq!(
        tenant_path("{tenantId}{tenantId", t.as_u128()),
        "11111111-2222-3333-4444-555555555555{tenantId"
    );
}

#[test]
fn the_method_defaults_by_body() {
    assert_eq!(request_method(Some("patch"), false), "PATCH");
    assert_eq!(request_method(None, true), "POST");
    assert_eq!(request_method(None, false), "GET");
}

#[test]
fn a_field_is_split_at_its_first_equals_sign() {
    assert_eq!(
        field_assignment("name=a=b").unwrap(),
        ("name".to_string(), "a=b".to_string())
    );
    assert_eq!(field_assignment("=x").unwrap(), ("".to_string(), "x".to_string()));
    assert_eq!(
        field_assignment("novalue").unwrap_err().message(),
        "Missing required argument: 'novalue' is not KEY=VALUE"
    );
}

#[test]
fn paging_keeps_every_parameter_but_the_page() {
    let (base, params) = paging_split("/v3/tenants/t/assets?perPage=100&page=4&&q=a=b");
    assert_eq!(base, "/v3/tenants/t/assets");
    assert_eq!(params, vec!["perPage=100", "q=a=b"]);
    assert_eq!(page_url(&base, &params, 2), "/v3/tenants/t/assets?perPage=100&q=a=b&page=2");
    let (base, params) = paging_split("/v3/things");
    assert_eq!(base, "/v3/things");
    assert!(params.is_empty());
    assert_eq!(page_url(&base, &params, 1), "/v3/things?page=1");
    let (_, params) = paging_split("/x?pages=2&page=");
    assert_eq!(params, vec!["pages=2"]);
}
