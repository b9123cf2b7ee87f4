use backup_docker_files::services::extraction::archive::list_archive_paths;
use backup_docker_files::services::extraction::file::{
    expand_glob, extraction_outcome, last_component_of, reanchor_paths,
};
use backup_docker_files::services::extraction::utils::{get_base_from_glob, is_path_glob};

#[test]
fn test_get_base_from_glob_no_glob() {
    let pattern = "/foo/bar";
    let expected = "/foo/bar".to_string();

    let actual = get_base_from_glob(&pattern);

    assert_eq!(actual, expected);
}

#[test]
fn glob_base_drops_every_piece_with_a_glob_character() {
    assert_eq!(get_base_from_glob("/data/dir/*.txt"), "/data/dir");
    assert_eq!(get_base_from_glob("/data/*/x.txt"), "/data/x.txt");
    assert_eq!(get_base_from_glob("*.db"), "");
    assert_eq!(get_base_from_glob("/a/b?/c[0]/{x,y}/d"), "/a/d");
    assert_eq!(get_base_from_glob(""), "");
    let base = get_base_from_glob("/srv/**/app/*.sqlite*");
    assert_eq!(base, "/srv/app");
    assert_eq!(get_base_from_glob(&base), base);
}

#[test]
fn glob_characters_are_recognised() {
    assert!(is_path_glob("/data/*.txt"));
    assert!(is_path_glob("file?.db"));
    assert!(is_path_glob("x[ab]"));
    assert!(is_path_glob("{a,b}"));
    assert!(!is_path_glob("/data/file.txt"));
    assert!(!is_path_glob(""));
}

#[test]
fn last_component_follows_path_components() {
    assert_eq!(last_component_of("/data/dir"), Some("dir".to_string()));
    assert_eq!(last_component_of("/data/dir/"), Some("dir".to_string()));
    assert_eq!(last_component_of("/data/dir/."), Some("dir".to_string()));
    assert_eq!(last_component_of("a//b"), Some("b".to_string()));
    assert_eq!(last_component_of("/data/.."), Some("..".to_string()));
    assert_eq!(last_component_of("/"), Some("/".to_string()));
    assert_eq!(last_component_of("./"), Some(".".to_string()));
    assert_eq!(last_component_of("."), Some(".".to_string()));
    assert_eq!(last_component_of(""), None);
    for p in ["/data/dir", "/data/dir/", "a//b", "/", "./", "/data/.."] {
        let std_last = std::path::Path::new(p).components().last().unwrap();
        assert_eq!(last_component_of(p).unwrap(), std_last.as_os_str().to_str().unwrap());
    }
}

#[test]
fn reanchoring_replaces_the_first_anchor() {
    let paths = vec![
        "dir/file1.txt".to_string(),
        "dir/sub/dir/file2.txt".to_string(),
        "other".to_string(),
    ];
    let r = reanchor_paths(&paths, "/data/dir");
    assert_eq!(
        r,
        vec![
            "/data/dir/file1.txt".to_string(),
            "/data/dir/sub/dir/file2.txt".to_string(),
            "other".to_string(),
        ]
    );
}

#[test]
fn glob_expansion_keeps_matching_paths() {
    let entries = vec!["dir".to_string(), "dir/a.txt".to_string(), "dir/b.log".to_string(), "dir/c.txt".to_string()];
    let r = expand_glob("/data/dir/*.txt", "/data/dir", &entries).unwrap();
    assert_eq!(r, vec!["/data/dir/a.txt".to_string(), "/data/dir/c.txt".to_string()]);
    let none = expand_glob("/data/dir/*.md", "/data/dir", &entries).unwrap();
    assert!(none.is_empty());
    assert!(expand_glob("/data/dir/[", "/data/dir", &entries).is_err());
}

#[test]
fn invalid_glob_reports_the_glob_crate_message() {
    let entries = vec!["dir/a.txt".to_string()];
    let expected = glob::Pattern::new("/data/dir/[").unwrap_err().to_string();
    assert!(expected.starts_with("Pattern syntax error near position "));
    assert_eq!(expand_glob("/data/dir/[", "/data/dir", &entries), Err(expected));
}

#[test]
fn archive_listing_reads_tar_entries() {
    let mut builder = tar::Builder::new(Vec::new());
    for (name, data) in [("dir/a.txt", b"hello".as_slice()), ("dir/b.db", b"x".as_slice())] {
        let mut header = tar::Header::new_gnu();
        header.set_size(data.len() as u64);
        header.set_mode(0o644);
        header.set_cksum();
        builder.append_data(&mut header, name, data).unwrap();
    }
    let bytes = builder.into_inner().unwrap();
    let paths = list_archive_paths(&bytes).unwrap();
    assert_eq!(paths, vec!["dir/a.txt".to_string(), "dir/b.db".to_string()]);
    assert_eq!(list_archive_paths(&vec![b'x'; 1024]), None);
}

#[test]
fn extraction_outcome_joins_errors() {
    assert_eq!(extraction_outcome("/tmp/s/c".to_string(), &vec![]), Ok("/tmp/s/c".to_string()));
    assert_eq!(
        extraction_outcome("/tmp/s/c".to_string(), &vec!["one".to_string(), "two".to_string()]),
        Err("one; two".to_string())
    );
}
