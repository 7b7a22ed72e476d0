use authcore::secret::domain::Secret;

#[test]
fn secret_new() {
    let data = "testing".as_bytes();
    let secret = Secret::new(data);

    assert_eq!("", secret.id);
    assert_eq!("testing".as_bytes(), secret.data);
}
