use aria::tls::assemble_identity;
use aria::tls::tls_identity;
use aria::tls::KeyDer;
use aria::tls::KeyForm;
use aria::tls::TlsFault;

fn section(name: &str, base64: &str) -> String {
    format!("-----BEGIN {name}-----\n{base64}\n-----END {name}-----\n")
}

fn identity(certs: &str, key: &str) -> Result<aria::tls::TlsIdentity, TlsFault> {
    tls_identity(&certs.as_bytes().to_vec(), &key.as_bytes().to_vec())
}

#[test]
fn certificates_and_key_are_read() {
    let certs = section("CERTIFICATE", "AQID") + "junk\n" + &section("CERTIFICATE", "BAUG");
    for (name, form) in [
        ("RSA PRIVATE KEY", KeyForm::Pkcs1),
        ("EC PRIVATE KEY", KeyForm::Sec1),
        ("PRIVATE KEY", KeyForm::Pkcs8),
    ] {
        let key = section("CERTIFICATE", "AQID") + &section(name, "BwgJ");
        let t = identity(&certs, &key).unwrap();
        assert_eq!(t.certs, vec![vec![1, 2, 3], vec![4, 5, 6]]);
        assert_eq!(t.key.form, form);
        assert_eq!(t.key.der, vec![7, 8, 9]);
    }
}

#[test]
fn faults_are_told_apart() {
    let certs = section("CERTIFICATE", "AQID");
    let key = section("PRIVATE KEY", "BwgJ");
    let open = "-----BEGIN CERTIFICATE-----\nAQID\n";
    let fault = identity(open, &key).unwrap_err();
    assert!(matches!(fault, TlsFault::Certificate(_)));
    assert_eq!(fault.message("k"), "cannot parse certificate PEM");
    assert!(fault.cause().unwrap().contains("section end"));
    // The certificates are looked at first.
    assert!(matches!(identity(open, open).unwrap_err(), TlsFault::Certificate(_)));
    let fault = identity(&certs, open).unwrap_err();
    assert!(matches!(fault, TlsFault::Key(_)));
    assert_eq!(fault.message("k"), "cannot parse private key PEM");
    let fault = identity(&certs, &certs).unwrap_err();
    assert!(matches!(fault, TlsFault::NoKey));
    assert_eq!(fault.message("\"k.pem\""), "no private key found in \"k.pem\"");
    assert_eq!(fault.cause(), None);
    assert!(matches!(identity("", "").unwrap_err(), TlsFault::NoKey));
    assert_eq!(identity("", &key).unwrap().certs.len(), 0);
}

#[test]
fn results_are_put_together() {
    let key = || KeyDer { form: KeyForm::Sec1, der: vec![7] };
    let t = assemble_identity(Ok(vec![vec![1]]), Ok(Some(key()))).unwrap();
    assert_eq!((t.certs, t.key.form, t.key.der), (vec![vec![1]], KeyForm::Sec1, vec![7]));
    assert!(matches!(
        assemble_identity(Err("c".into()), Ok(Some(key()))),
        Err(TlsFault::Certificate(e)) if e == "c"
    ));
    assert!(matches!(
        assemble_identity(Ok(vec![]), Err("k".into())),
        Err(TlsFault::Key(e)) if e == "k"
    ));
    assert!(matches!(assemble_identity(Ok(vec![]), Ok(None)), Err(TlsFault::NoKey)));
}
