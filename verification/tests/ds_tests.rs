use concord::ds::{db_root_path, expand_home};

#[test]
fn home_expansion() {
    assert_eq!(expand_home("~/.concord", "/home/u"), "/home/u/.concord");
    assert_eq!(expand_home("/var/~x~", "H"), "/var/HxH");
    assert_eq!(expand_home("/plain", "/home/u"), "/plain");
    assert!(!db_root_path("~/.concord").contains('~'));
    assert_eq!(db_root_path("/plain"), "/plain");
}
