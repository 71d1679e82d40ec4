use vstd::prelude::*;
use vstd::string::*;
use crate::text::{decimal, lemma_port_text_with_sign, opt_chars, push_char, push_decimal, spec_parse_port, PortParseError};

verus! {

/// The address of this machine on the local network, as the program found it.
pub enum HostAddr {
    /// An IPv4 address, by its four octets.
    V4(u8, u8, u8, u8),
    /// An IPv6 address, by its standard text form (without brackets).
    V6(String),
}

/// The text form of a host address: dotted decimal for IPv4, the given text for IPv6.
pub open spec fn host_text(host: HostAddr) -> Seq<char> {
    match host {
        HostAddr::V4(a, b, c, d) => decimal(a as nat).push('.') + decimal(b as nat).push('.')
            + decimal(c as nat).push('.') + decimal(d as nat),
        HostAddr::V6(t) => t@,
    }
}

/// The text form of a socket address (host and port), as `SocketAddr` writes it:
/// `a.b.c.d:port` for IPv4 and `[text]:port` for IPv6.
pub open spec fn socket_text(host: HostAddr, port: u16) -> Seq<char> {
    match host {
        HostAddr::V4(..) => host_text(host).push(':') + decimal(port as nat),
        HostAddr::V6(t) => seq!['['] + t@ + seq![']', ':'] + decimal(port as nat),
    }
}

/// The path under which a file is served: `/` and the file's name.
pub open spec fn route_of(file_name: Seq<char>) -> Seq<char> {
    seq!['/'] + file_name
}

/// The address a downloader opens: `http://`, the socket address, then the route.
pub open spec fn download_url_of(host: HostAddr, port: u16, file_name: Seq<char>) -> Seq<char> {
    "http://"@ + socket_text(host, port) + route_of(file_name)
}

/// Writes the socket address of `host` and `port`.
pub fn socket_addr_text(host: &HostAddr, port: u16) -> (s: String)
    ensures
        s@ == socket_text(*host, port),
{
    let mut s = String::new();
    match host {
        HostAddr::V4(a, b, c, d) => {
            push_decimal(&mut s, *a as u64);
            push_char(&mut s, '.');
            push_decimal(&mut s, *b as u64);
            push_char(&mut s, '.');
            push_decimal(&mut s, *c as u64);
            push_char(&mut s, '.');
            push_decimal(&mut s, *d as u64);
            push_char(&mut s, ':');
            push_decimal(&mut s, port as u64);
            assert(s@ =~= socket_text(*host, port));
        },
        HostAddr::V6(t) => {
            push_char(&mut s, '[');
            s.append(t.as_str());
            push_char(&mut s, ']');
            push_char(&mut s, ':');
            push_decimal(&mut s, port as u64);
            assert(s@ =~= socket_text(*host, port));
        },
    }
    s
}

/// The route under which the file called `file_name` is served.
pub fn route_path(file_name: &str) -> (s: String)
    ensures
        s@ == route_of(file_name@),
{
    let mut s = String::new();
    push_char(&mut s, '/');
    s.append(file_name);
    assert(s@ =~= route_of(file_name@));
    s
}

/// The download link for the file called `file_name`, served at `host` and `port`.
pub fn download_url(host: &HostAddr, port: u16, file_name: &str) -> (s: String)
    ensures
        s@ == download_url_of(*host, port, file_name@),
{
    let mut s = String::new();
    s.append("http://");
    let sock = socket_addr_text(host, port);
    s.append(sock.as_str());
    let route = route_path(file_name);
    s.append(route.as_str());
    assert(s@ =~= download_url_of(*host, port, file_name@));
    s
}

/// Law: the download link is `http://`, the host (dotted octets for IPv4,
/// the bracketed text for IPv6), `:`, the decimal port, `/` and the file name;
/// the port text in it reads back as the port it was built from.
pub proof fn lemma_url_parts(host: HostAddr, port: u16, file_name: Seq<char>)
    ensures
        host matches HostAddr::V4(a, b, c, d) ==> download_url_of(host, port, file_name) == "http://"@
            + decimal(a as nat) + seq!['.'] + decimal(b as nat) + seq!['.'] + decimal(c as nat)
            + seq!['.'] + decimal(d as nat) + seq![':'] + decimal(port as nat) + seq!['/'] + file_name,
        host matches HostAddr::V6(t) ==> download_url_of(host, port, file_name) == "http://"@
            + seq!['['] + t@ + seq![']'] + seq![':'] + decimal(port as nat) + seq!['/'] + file_name,
        spec_parse_port(decimal(port as nat)) == Ok::<u16, PortParseError>(port),
{
    lemma_port_text_with_sign(port);
    match host {
        HostAddr::V4(a, b, c, d) => {
            assert(download_url_of(host, port, file_name) =~= "http://"@ + decimal(a as nat)
                + seq!['.'] + decimal(b as nat) + seq!['.'] + decimal(c as nat) + seq!['.']
                + decimal(d as nat) + seq![':'] + decimal(port as nat) + seq!['/'] + file_name);
        },
        HostAddr::V6(t) => {
            assert(download_url_of(host, port, file_name) =~= "http://"@ + seq!['['] + t@
                + seq![']'] + seq![':'] + decimal(port as nat) + seq!['/'] + file_name);
        },
    }
}

/// Law: the download link ends with exactly the route under which the file is served.
pub proof fn lemma_url_ends_with_route(host: HostAddr, port: u16, file_name: Seq<char>)
    ensures
        ({
            let url = download_url_of(host, port, file_name);
            let route = route_of(file_name);
            &&& url.len() >= route.len()
            &&& url.subrange(url.len() - route.len(), url.len() as int) == route
        }),
{
    let url = download_url_of(host, port, file_name);
    let route = route_of(file_name);
    assert(url.subrange(url.len() - route.len(), url.len() as int) =~= route);
}

/// Where the path segment that ends at `end` starts: just after the last `/`
/// before `end`, or at the beginning.
pub open spec fn segment_start(p: Seq<char>, end: int) -> int
    decreases end,
{
    if end <= 0 {
        0
    } else if p[end - 1] == '/' {
        end
    } else {
        segment_start(p, end - 1)
    }
}

/// A segment starts within the prefix, right after a `/` (or at the beginning), and holds no `/`.
pub proof fn lemma_segment_start_bounds(p: Seq<char>, end: int)
    requires
        0 <= end,
    ensures
        0 <= segment_start(p, end) <= end,
        end > 0 && p[end - 1] != '/' ==> segment_start(p, end) < end,
        segment_start(p, end) > 0 ==> p[segment_start(p, end) - 1] == '/',
        forall|i: int| segment_start(p, end) <= i < end ==> p[i] != '/',
    decreases end,
{
    if end > 0 && p[end - 1] != '/' {
        lemma_segment_start_bounds(p, end - 1);
    }
}

/// The path component `.`.
pub open spec fn is_dot(s: Seq<char>) -> bool {
    s.len() == 1 && s[0] == '.'
}

/// The path component `..`.
pub open spec fn is_dot_dot(s: Seq<char>) -> bool {
    s.len() == 2 && s[0] == '.' && s[1] == '.'
}

/// The last component of the first `end` characters of the path `p`, when it
/// names a file or directory, as `Path::file_name` finds it: separators at
/// the end and `.` components are skipped; a path that ends in `..`, or that
/// has no normal component at its end (`""`, `"/"`, `"."`), has none.
pub open spec fn file_name_in(p: Seq<char>, end: int) -> Option<Seq<char>>
    decreases end,
{
    if end <= 0 || end > p.len() {
        None
    } else if p[end - 1] == '/' {
        file_name_in(p, end - 1)
    } else {
        let start: int = segment_start(p, end);
        let seg = p.subrange(start, end);
        if is_dot(seg) {
            if start == 0 {
                None
            } else {
                proof {
                    lemma_segment_start_bounds(p, end);
                }
                file_name_in(p, start)
            }
        } else if is_dot_dot(seg) {
            None
        } else {
            Some(seg)
        }
    }
}

/// The file name of a whole path.
pub open spec fn file_name_spec(p: Seq<char>) -> Option<Seq<char>> {
    file_name_in(p, p.len() as int)
}

fn find_segment_start(path: &str, end: usize) -> (start: usize)
    requires
        end <= path@.len(),
    ensures
        start == segment_start(path@, end as int),
{
    let mut i = end;
    while i > 0 && path.get_char(i - 1) != '/'
        invariant
            i <= end <= path@.len(),
            segment_start(path@, i as int) == segment_start(path@, end as int),
        decreases i,
    {
        i = i - 1;
    }
    i
}

fn file_name_upto(path: &str, end: usize) -> (r: Option<String>)
    requires
        end <= path@.len(),
    ensures
        opt_chars(r) == file_name_in(path@, end as int),
    decreases end,
{
    if end == 0 {
        return None;
    }
    if path.get_char(end - 1) == '/' {
        return file_name_upto(path, end - 1);
    }
    let start: usize = find_segment_start(path, end);
    proof {
        lemma_segment_start_bounds(path@, end as int);
    }
    let ghost seg = path@.subrange(start as int, end as int);
    if end - start == 1 && path.get_char(start) == '.' {
        if start == 0 {
            return None;
        }
        return file_name_upto(path, start);
    }
    if end - start == 2 && path.get_char(start) == '.' && path.get_char(start + 1) == '.' {
        return None;
    }
    let name = path.substring_char(start, end);
    Some(name.to_owned())
}

/// The name of the file that `path` points at (what `Path::file_name` gives),
/// or `None` when the path ends in `..` or has no such component.
pub fn file_name_of(path: &str) -> (r: Option<String>)
    ensures
        opt_chars(r) == file_name_spec(path@),
        forall|dir: Seq<char>, name: Seq<char>|
            is_normal_component(name) && path@ == dir + seq!['/'] + name ==> opt_chars(r) == Some(
                name,
            ),
        is_normal_component(path@) ==> opt_chars(r) == Some(path@),
{
    proof {
        assert forall|dir: Seq<char>, name: Seq<char>|
            is_normal_component(name) && path@ == dir + seq!['/'] + name implies file_name_spec(
            path@,
        ) == Some(name) by {
            lemma_file_name_of_last_component(dir, name);
        }
        if is_normal_component(path@) {
            lemma_file_name_of_last_component(Seq::empty(), path@);
        }
    }
    file_name_upto(path, path.unicode_len())
}

/// A normal path component: not empty, without `/`, and neither `.` nor `..`.
pub open spec fn is_normal_component(name: Seq<char>) -> bool {
    &&& name.len() > 0
    &&& forall|i: int| 0 <= i < name.len() ==> name[i] != '/'
    &&& name != seq!['.']
    &&& name != seq!['.', '.']
}

proof fn lemma_segment_start_after_separator(prefix: Seq<char>, name: Seq<char>, k: int)
    requires
        prefix.len() == 0 || prefix.last() == '/',
        forall|i: int| 0 <= i < name.len() ==> name[i] != '/',
        prefix.len() <= k <= prefix.len() + name.len(),
    ensures
        segment_start(prefix + name, k) == prefix.len(),
    decreases k,
{
    let p = prefix + name;
    if k > prefix.len() {
        assert(p[k - 1] == name[k - 1 - prefix.len()]);
        lemma_segment_start_after_separator(prefix, name, k - 1);
    } else if k > 0 {
        assert(p[k - 1] == prefix.last());
    }
}

/// Law: the file name of a path is its last component whenever that is a
/// normal one, whatever its length: `dir/name` and a bare `name` both name
/// `name`.
pub proof fn lemma_file_name_of_last_component(dir: Seq<char>, name: Seq<char>)
    requires
        is_normal_component(name),
    ensures
        file_name_spec(dir + seq!['/'] + name) == Some(name),
        file_name_spec(name) == Some(name),
{
    let prefix = dir + seq!['/'];
    let p = prefix + name;
    assert(dir + seq!['/'] + name == p);
    lemma_segment_start_after_separator(prefix, name, p.len() as int);
    assert(p[p.len() - 1] == name.last());
    assert(p.subrange(prefix.len() as int, p.len() as int) =~= name);
    assert(!is_dot(name)) by {
        if is_dot(name) {
            assert(name =~= seq!['.']);
        }
    }
    assert(!is_dot_dot(name)) by {
        if is_dot_dot(name) {
            assert(name =~= seq!['.', '.']);
        }
    }
    let e = Seq::<char>::empty();
    lemma_segment_start_after_separator(e, name, name.len() as int);
    assert(e + name =~= name);
    assert(name.subrange(0, name.len() as int) =~= name);
}

/// Law: a file name found in a path is a single normal component: it is not
/// empty, holds no `/`, and is neither `.` nor `..`.
pub proof fn lemma_file_name_is_component(p: Seq<char>, end: int)
    requires
        file_name_in(p, end) is Some,
    ensures
        ({
            let name = file_name_in(p, end)->0;
            &&& name.len() > 0
            &&& forall|i: int| 0 <= i < name.len() ==> name[i] != '/'
            &&& !is_dot(name)
            &&& !is_dot_dot(name)
        }),
    decreases end,
{
    if end > 0 && end <= p.len() {
        if p[end - 1] == '/' {
            lemma_file_name_is_component(p, end - 1);
        } else {
            lemma_segment_start_bounds(p, end);
            let start: int = segment_start(p, end);
            let seg = p.subrange(start, end);
            if is_dot(seg) {
                lemma_file_name_is_component(p, start);
            } else if !is_dot_dot(seg) {
                assert forall|i: int| 0 <= i < seg.len() implies seg[i] != '/' by {
                    assert(seg[i] == p[start + i]);
                }
            }
        }
    }
}

/// Where and how a file is served: its name, the route it is served under,
/// and the link to it.
pub struct ServePlan {
    pub file_name: String,
    pub route: String,
    pub url: String,
}

/// Why a file cannot be served.
#[derive(Clone, Copy, Debug, PartialEq, Eq, Structural)]
pub enum PlanError {
    /// The path names no file (it ends in `..`, or is `/`, `.` or empty).
    NoFileName,
}

/// The plan for serving the file at `path` from `host` and `port`.
pub fn serve_plan(path: &str, host: &HostAddr, port: u16) -> (r: Result<ServePlan, PlanError>)
    ensures
        file_name_spec(path@) is None ==> r == Err::<ServePlan, PlanError>(PlanError::NoFileName),
        file_name_spec(path@) matches Some(name) ==> r matches Ok(plan) && {
            &&& plan.file_name@ == name
            &&& plan.route@ == route_of(name)
            &&& plan.url@ == download_url_of(*host, port, name)
        },
{
    match file_name_of(path) {
        None => Err(PlanError::NoFileName),
        Some(file_name) => {
            let route = route_path(file_name.as_str());
            let url = download_url(host, port, file_name.as_str());
            Ok(ServePlan { file_name, route, url })
        },
    }
}

} // verus!
