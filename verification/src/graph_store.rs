use vstd::prelude::*;

verus! {

/// Collects the connection settings of a graph-store client. The client
/// itself lives with the database driver, outside this crate; only the
/// settings are kept here.
#[derive(Debug, Clone)]
pub struct Neo4jGraphStoreBuilder {
    pub url: Option<String>,
    pub username: Option<String>,
    pub password: Option<String>,
}

impl Default for Neo4jGraphStoreBuilder {
    fn default() -> (r: Neo4jGraphStoreBuilder)
        ensures
            r.url is None,
            r.username is None,
            r.password is None,
    {
        Neo4jGraphStoreBuilder { url: None, username: None, password: None }
    }
}

impl Neo4jGraphStoreBuilder {
    /// Choose the server url.
    pub fn with_url(self, url: String) -> (r: Neo4jGraphStoreBuilder)
        ensures
            r.url matches Some(u) && u@ == url@,
            r.username == self.username,
            r.password == self.password,
    {
        Neo4jGraphStoreBuilder { url: Some(url), ..self }
    }

    /// Choose the user name.
    pub fn with_username(self, username: String) -> (r: Neo4jGraphStoreBuilder)
        ensures
            r.username matches Some(u) && u@ == username@,
            r.url == self.url,
            r.password == self.password,
    {
        Neo4jGraphStoreBuilder { username: Some(username), ..self }
    }

    /// Choose the password.
    pub fn with_password(self, password: String) -> (r: Neo4jGraphStoreBuilder)
        ensures
            r.password matches Some(p) && p@ == password@,
            r.url == self.url,
            r.username == self.username,
    {
        Neo4jGraphStoreBuilder { password: Some(password), ..self }
    }
}

} // verus!
