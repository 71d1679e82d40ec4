use airnc::address::{
    download_url, file_name_of, route_path, serve_plan, socket_addr_text, HostAddr, PlanError,
};
use std::path::Path;

#[test]
fn socket_text_v4_and_v6() {
    assert_eq!(socket_addr_text(&HostAddr::V4(192, 168, 1, 5), 8080), "192.168.1.5:8080");
    assert_eq!(socket_addr_text(&HostAddr::V4(0, 0, 0, 0), 0), "0.0.0.0:0");
    assert_eq!(socket_addr_text(&HostAddr::V6("fe80::1".to_string()), 12345), "[fe80::1]:12345");
}

#[test]
fn socket_text_v6_with_port() {
    assert_eq!(socket_addr_text(&HostAddr::V6("2001:db8::1".to_string()), 443), "[2001:db8::1]:443");
    assert_eq!(socket_addr_text(&HostAddr::V4(10, 0, 255, 7), 54321), "10.0.255.7:54321");
}

#[test]
fn url_and_route() {
    let host = HostAddr::V4(192, 168, 1, 5);
    assert_eq!(route_path("report.pdf"), "/report.pdf");
    assert_eq!(download_url(&host, 8080, "report.pdf"), "http://192.168.1.5:8080/report.pdf");
    let url = download_url(&host, 8080, "report.pdf");
    assert!(url.ends_with(&route_path("report.pdf")));
}

#[test]
fn file_name_agrees_with_std() {
    let cases = [
        "", "/", ".", "..", "./", "./.", "a", "a/", "a//", "a/.", "a/./", "a/..", "../a", "./a",
        "/tmp/file.txt", "/tmp/dir/", "dir/./.", "/.", "//", "a/b/c.tar.gz", "...", ".hidden",
        "a/.hidden/", "x/../y", "/a/b/..", "a/./b/.",
    ];
    for c in cases.iter() {
        let expected = Path::new(c).file_name().map(|n| n.to_str().unwrap().to_string());
        assert_eq!(file_name_of(c), expected, "case {:?}", c);
    }
}

#[test]
fn serve_plan_for_a_file() {
    let plan = serve_plan("/home/me/notes.txt", &HostAddr::V4(10, 1, 2, 3), 40000).unwrap();
    assert_eq!(plan.file_name, "notes.txt");
    assert_eq!(plan.route, "/notes.txt");
    assert_eq!(plan.url, "http://10.1.2.3:40000/notes.txt");
}

#[test]
fn serve_plan_without_file_name() {
    assert!(matches!(serve_plan("/", &HostAddr::V4(1, 2, 3, 4), 1), Err(PlanError::NoFileName)));
    assert!(matches!(serve_plan("a/..", &HostAddr::V4(1, 2, 3, 4), 1), Err(PlanError::NoFileName)));
}
