use vstd::prelude::*;
use vstd::string::*;

verus! {

/// The table that holds the registered services.
pub const SERVICES_TABLE_NAME: &'static str = "services";

/// A registered service, as a row of the services table.
pub struct Service {
    pub id: String,
    pub ip: String,
    pub websocket_key: String,
    pub link: String,
}

/// A named parameter of a prepared statement (`:name` in the query).
pub struct QueryParam {
    pub name: String,
    pub value: String,
}

/// The statement that registers a service.
pub open spec fn insert_query_text() -> Seq<char> {
    "INSERT INTO "@ + SERVICES_TABLE_NAME@ + " (ip, link, websocket_key) VALUES (:ip, :link, :websocket_key)"@
}

/// The statement that lists the services; with a search text, only those whose
/// id, ip, link and key, written one after the other, contain it.
pub open spec fn select_query_text(search: Option<Seq<char>>) -> Seq<char> {
    match search {
        None => "SELECT * FROM "@ + SERVICES_TABLE_NAME@,
        Some(s) => "SELECT * FROM "@ + SERVICES_TABLE_NAME@
            + " WHERE CONCAT(id, ip, link, websocket_key) LIKE '%"@ + s + "%'"@,
    }
}

/// The statement that removes the services of one websocket connection.
pub open spec fn delete_query_text() -> Seq<char> {
    "DELETE FROM "@ + SERVICES_TABLE_NAME@ + " WHERE websocket_key = :websocket_key"@
}

/// A parameter by its name and value.
pub open spec fn param_view(p: QueryParam) -> (Seq<char>, Seq<char>) {
    (p.name@, p.value@)
}

/// The statement that registers a service.
pub fn insert_service_query() -> (q: String)
    ensures
        q@ == insert_query_text(),
{
    let mut q = String::from_str("INSERT INTO ");
    q.append(SERVICES_TABLE_NAME);
    q.append(" (ip, link, websocket_key) VALUES (:ip, :link, :websocket_key)");
    q
}

/// The parameters of the statement that registers a service.
pub fn insert_service_params(ip: String, link: String, websocket_key: String) -> (params: Vec<
    QueryParam,
>)
    ensures
        params@.map_values(|p: QueryParam| param_view(p)) == seq![
            ("ip"@, ip@),
            ("link"@, link@),
            ("websocket_key"@, websocket_key@),
        ],
{
    let mut params = Vec::new();
    params.push(QueryParam { name: String::from_str("ip"), value: ip });
    params.push(QueryParam { name: String::from_str("link"), value: link });
    params.push(QueryParam { name: String::from_str("websocket_key"), value: websocket_key });
    assert(params@.map_values(|p: QueryParam| param_view(p)) =~= seq![
        ("ip"@, ip@),
        ("link"@, link@),
        ("websocket_key"@, websocket_key@),
    ]);
    params
}

/// The statement that lists the services, filtered by `search` when there is one.
pub fn select_services_query(search: Option<&str>) -> (q: String)
    ensures
        q@ == select_query_text(
            match search {
                Some(s) => Some(s@),
                None => None,
            },
        ),
{
    let mut q = String::from_str("SELECT * FROM ");
    q.append(SERVICES_TABLE_NAME);
    match search {
        Some(s) => {
            q.append(" WHERE CONCAT(id, ip, link, websocket_key) LIKE '%");
            q.append(s);
            q.append("%'");
        },
        None => {},
    }
    q
}

/// The statement that removes the services of one websocket connection.
pub fn delete_service_query() -> (q: String)
    ensures
        q@ == delete_query_text(),
{
    let mut q = String::from_str("DELETE FROM ");
    q.append(SERVICES_TABLE_NAME);
    q.append(" WHERE websocket_key = :websocket_key");
    q
}

/// The parameters of the statement that removes a connection's services.
pub fn delete_service_params(websocket_key: String) -> (params: Vec<QueryParam>)
    ensures
        params@.map_values(|p: QueryParam| param_view(p)) == seq![
            ("websocket_key"@, websocket_key@),
        ],
{
    let mut params = Vec::new();
    params.push(QueryParam { name: String::from_str("websocket_key"), value: websocket_key });
    assert(params@.map_values(|p: QueryParam| param_view(p)) =~= seq![
        ("websocket_key"@, websocket_key@),
    ]);
    params
}

impl Service {
    /// A service from the columns of a row, in the table's order:
    /// id, ip, link, websocket key.
    pub fn from_row(id: String, ip: String, link: String, websocket_key: String) -> (s: Service)
        ensures
            s.id == id,
            s.ip == ip,
            s.link == link,
            s.websocket_key == websocket_key,
    {
        Service { id, ip, websocket_key, link }
    }
}

/// Law: a filtered listing is the plain listing followed by the filter clause
/// that holds the search text.
pub proof fn lemma_search_extends_listing(search: Seq<char>)
    ensures
        select_query_text(Some(search)) == select_query_text(None)
            + " WHERE CONCAT(id, ip, link, websocket_key) LIKE '%"@ + search + "%'"@,
{
}

/// Whether `query` holds the placeholder `:name`.
pub open spec fn has_placeholder(query: Seq<char>, name: Seq<char>) -> bool {
    exists|i: int|
        0 <= i && i + name.len() + 1 <= query.len() && #[trigger] query.subrange(
            i,
            i + name.len() + 1,
        ) == seq![':'] + name
}

/// Law: every parameter the statements are given is bound by a placeholder of
/// the same name in the statement.
pub proof fn lemma_params_have_placeholders()
    ensures
        has_placeholder(insert_query_text(), "ip"@),
        has_placeholder(insert_query_text(), "link"@),
        has_placeholder(insert_query_text(), "websocket_key"@),
        has_placeholder(delete_query_text(), "websocket_key"@),
{
    reveal_strlit("INSERT INTO ");
    reveal_strlit("services");
    reveal_strlit(" (ip, link, websocket_key) VALUES (:ip, :link, :websocket_key)");
    reveal_strlit("DELETE FROM ");
    reveal_strlit(" WHERE websocket_key = :websocket_key");
    reveal_strlit("ip");
    reveal_strlit("link");
    reveal_strlit("websocket_key");
    let ins = insert_query_text();
    let del = delete_query_text();
    assert(ins.subrange(55int, 55int + "ip"@.len() + 1) =~= seq![':'] + "ip"@);
    assert(ins.subrange(60int, 60int + "link"@.len() + 1) =~= seq![':'] + "link"@);
    assert(ins.subrange(67int, 67int + "websocket_key"@.len() + 1) =~= seq![':'] + "websocket_key"@);
    assert(del.subrange(43int, 43int + "websocket_key"@.len() + 1) =~= seq![':'] + "websocket_key"@);
}

} // verus!
