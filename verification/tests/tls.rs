use authentik::brands::{group_brands, BrandRow};
use authentik::tls::{
    best_binding, fallback_parameters, resolve, select, CertificateBinding, CertificateManager,
};

fn binding(domain: &str, is_default: bool, certificate: Option<u32>) -> CertificateBinding<u32> {
    CertificateBinding { domain: domain.as_bytes().to_vec(), is_default, certificate }
}

fn manager(bindings: Vec<CertificateBinding<u32>>) -> CertificateManager<u32> {
    let mut manager = CertificateManager::new();
    let none: Option<()> = manager.refresh(Ok(bindings));
    assert!(none.is_none());
    manager
}

#[test]
fn subdomain_matches_the_binding_of_its_domain() {
    let manager = manager(vec![binding("example.org", false, Some(1)), binding("example.com", false, Some(2))]);
    assert_eq!(*resolve(&manager, Some(b"sub.example.com"), &0), 2);
    assert_eq!(*resolve(&manager, Some(b"a.b.example.org"), &0), 1);
    assert_eq!(*resolve(&manager, Some(b"example.com"), &0), 2);
    // A name that merely ends like the domain is no subdomain.
    assert_eq!(*resolve(&manager, Some(b"notexample.com"), &0), 0);
}

#[test]
fn unmatched_name_resolves_to_the_default() {
    let manager = manager(vec![binding("example.org", false, Some(1)), binding("example.com", true, Some(2))]);
    assert_eq!(*resolve(&manager, Some(b"tenant-a.example"), &0), 2);
}

#[test]
fn unmatched_name_without_default_resolves_to_the_fallback() {
    let manager = manager(vec![binding("example.org", false, Some(1)), binding("example.com", false, Some(2))]);
    assert_eq!(*resolve(&manager, Some(b"tenant-a.example"), &0), 0);
    assert_eq!(manager.resolve(b"tenant-a.example"), None);
    let empty: CertificateManager<u32> = CertificateManager::new();
    assert_eq!(*resolve(&empty, Some(b"example.com"), &9), 9);
}

#[test]
fn handshake_without_server_name_gets_the_fallback() {
    let manager = manager(vec![binding("example.com", true, Some(2))]);
    assert_eq!(*resolve(&manager, None, &0), 0);
    assert_eq!(*select(None, Some(&1), Some(&2), &0), 0);
    assert_eq!(*select(Some(b"x"), Some(&1), Some(&2), &0), 1);
    assert_eq!(*select(Some(b"x"), None, Some(&2), &0), 2);
    assert_eq!(*select(Some(b"x"), None, None, &0), 0);
}

#[test]
fn better_answers_win_and_the_first_among_equals() {
    let bindings = vec![
        binding("other.test", true, Some(1)),
        binding("example.com", false, Some(2)),
        binding("example.com", true, Some(3)),
        binding("sub.example.com", false, None),
        binding("sub.example.com", false, Some(5)),
        binding("sub.example.com", false, Some(6)),
    ];
    // The name itself goes before a parent domain, certificates that are missing do not count.
    assert_eq!(best_binding(&bindings, b"sub.example.com"), Some(4));
    // Among parent domains the default goes first.
    assert_eq!(best_binding(&bindings, b"www.example.com"), Some(2));
    // The name itself goes before the default.
    assert_eq!(best_binding(&bindings, b"example.com"), Some(1));
    assert_eq!(best_binding(&bindings, b"unrelated.test"), Some(0));
    assert_eq!(best_binding(&bindings[1..2], b"unrelated.test"), None);
    assert_eq!(best_binding(&bindings[3..4], b"sub.example.com"), None);
}

#[test]
fn failed_refresh_keeps_the_loaded_bindings() {
    let mut manager = manager(vec![binding("example.com", false, Some(2))]);
    assert_eq!(manager.refresh(Err("store is down")), Some("store is down"));
    assert_eq!(manager.resolve(b"example.com"), Some(&2));
    let none: Option<&str> = manager.refresh(Ok(vec![binding("example.org", false, Some(7))]));
    assert_eq!(none, None);
    assert_eq!(manager.resolve(b"example.com"), None);
    assert_eq!(manager.resolve(b"example.org"), Some(&7));
}

#[test]
fn fallback_certificate_is_good_for_a_year_and_every_name() {
    let parameters = fallback_parameters();
    assert_eq!(parameters.organization, "authentik");
    assert_eq!(parameters.common_name, "authentik default certificate");
    assert_eq!(parameters.subject_alt_name, "*");
    assert_eq!(parameters.validity_days, 365);
}

fn row(uuid: u128, domain: &str, web: bool, client: Option<&str>) -> BrandRow {
    BrandRow {
        brand_uuid: uuid,
        domain: domain.as_bytes().to_vec(),
        default: uuid == 1,
        web_cert_data: web.then_some(b"web cert".to_vec()),
        web_cert_key: web.then_some(b"web key".to_vec()),
        client_cert_data: client.map(|c| c.as_bytes().to_vec()),
        client_cert_key: client.map(|_| b"key".to_vec()),
    }
}

#[test]
fn rows_are_gathered_by_tenant() {
    let mut half = row(3, "c.test", false, None);
    half.client_cert_data = Some(b"lonely".to_vec());
    let rows = vec![
        row(1, "a.test", true, Some("one")),
        row(2, "b.test", false, None),
        row(1, "ignored.test", false, Some("two")),
        half,
        row(2, "b.test", false, Some("three")),
    ];
    let brands = group_brands(&rows);
    assert_eq!(brands.len(), 3);
    assert_eq!(brands[0].brand_uuid, 1);
    assert_eq!(brands[0].domain, b"a.test");
    assert!(brands[0].default);
    assert_eq!(
        brands[0].web_certificate.as_ref().map(|c| (c.certificate_data.clone(), c.key_data.clone())),
        Some((b"web cert".to_vec(), b"web key".to_vec()))
    );
    let clients: Vec<&[u8]> =
        brands[0].client_certificates.iter().map(|c| c.certificate_data.as_slice()).collect();
    assert_eq!(clients, vec![&b"one"[..], &b"two"[..]]);
    assert_eq!(brands[1].brand_uuid, 2);
    assert!(brands[1].web_certificate.is_none());
    assert_eq!(brands[1].client_certificates.len(), 1);
    assert_eq!(brands[1].client_certificates[0].certificate_data, b"three");
    assert_eq!(brands[2].brand_uuid, 3);
    assert!(brands[2].client_certificates.is_empty());
    assert!(group_brands(&[]).is_empty());
}
