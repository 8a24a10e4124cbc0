use lightarchitects_webshell::attestation::{
    check_attestation, AttestationRefusal, AttestationRing, RING_CAP,
};

#[test]
fn rejects_file_path_in_span_id() {
    assert_eq!(check_attestation(Some("/etc/passwd"), true), Err(AttestationRefusal::SpanIdIsPath));
    assert_eq!(check_attestation(Some("a\\b"), true), Err(AttestationRefusal::SpanIdIsPath));
    assert_eq!(check_attestation(Some("/etc/passwd"), false), Err(AttestationRefusal::SpanIdIsPath));
}

#[test]
fn returns_404_for_missing_build() {
    assert_eq!(check_attestation(None, false), Err(AttestationRefusal::UnknownBuild));
    assert_eq!(
        check_attestation(Some("6f1c1e7e-0000-4000-8000-000000000000"), false),
        Err(AttestationRefusal::UnknownBuild)
    );
    assert_eq!(check_attestation(Some("6f1c1e7e-0000-4000-8000-000000000000"), true), Ok(()));
}

#[test]
fn ring_buffer_caps_at_ring_cap() {
    let mut ring: AttestationRing<String> = AttestationRing::new();
    for i in 0..(RING_CAP + 5) {
        ring.push(format!("t-{i}"));
    }
    assert_eq!(ring.len(), RING_CAP);
    assert_eq!(ring.get(0), "t-5");
    assert_eq!(ring.get(RING_CAP - 1), &format!("t-{}", RING_CAP + 4));
}

#[test]
fn list_returns_empty_for_unknown_build() {
    let ring: AttestationRing<String> = AttestationRing::new();
    assert_eq!(ring.len(), 0);
}
