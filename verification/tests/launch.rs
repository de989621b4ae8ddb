use pulsar_hub::launch::{open_project_uri, percent_encode};

#[test]
fn percent_encode_keeps_unreserved() {
    assert_eq!(percent_encode("AZaz09-_.~"), "AZaz09-_.~");
    assert_eq!(percent_encode("a b/c"), "a%20b%2Fc");
    assert_eq!(percent_encode("é"), "%C3%A9");
}

#[test]
fn open_project_uri_encodes_windows_path() {
    assert_eq!(
        open_project_uri("C:\\Users\\you\\Projects\\my_game"),
        "pulsar://open_project/C%3A%5CUsers%5Cyou%5CProjects%5Cmy_game"
    );
}
