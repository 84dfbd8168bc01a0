use brute_force::digest::compute_digest;

#[test]
fn digest_of_empty_input_is_the_known_vector() {
    assert_eq!(compute_digest(""), "d41d8cd98f00b204e9800998ecf8427e");
}

#[test]
fn digest_of_password_is_the_known_vector() {
    assert_eq!(compute_digest("password"), "5f4dcc3b5aa765d61d8327deb882cf99");
}

#[test]
fn digest_of_abc_is_the_known_vector() {
    assert_eq!(compute_digest("abc"), "900150983cd24fb0d6963f7d28e17f72");
}

#[test]
fn digest_matches_an_independent_recomputation() {
    for input in ["", "a", "abc", "password", "The quick brown fox"] {
        let reference = format!("{:x}", md5::compute(input.as_bytes()));
        assert_eq!(compute_digest(input), reference);
    }
}
