//! Where metrics are delivered to.
use vstd::prelude::*;

use super::errors::{ClickhouseMetricsError, ErrorView};
use super::service::{KeyPartitioner, Template};
use crate::text::copy;

verus! {

/// Credentials.
#[derive(Clone, Debug)]
pub enum Auth {
    /// A user and a password.
    Basic {
        /// The user.
        user: String,
        /// The password.
        password: String,
    },
    /// A token.
    Bearer {
        /// The token.
        token: String,
    },
}

/// How ClickHouse is reached. Which database and table are written to comes with each
/// request.
#[derive(Clone, Debug)]
pub struct ClientSettings {
    /// Where it is.
    pub url: String,
    /// The user.
    pub user: String,
    /// The password.
    pub password: String,
    /// Whether fields that a table does not have are ignored. As ClickHouse has it,
    /// where absent.
    pub skip_unknown_fields: Option<bool>,
}

/// The settings of ClickHouse that go with every insert, by name.
pub open spec fn insert_settings(skip_unknown_fields: Option<bool>) -> Seq<
    (Seq<char>, Seq<char>),
> {
    match skip_unknown_fields {
        Some(true) => seq![("input_format_skip_unknown_fields"@, "1"@)],
        Some(false) => seq![("input_format_skip_unknown_fields"@, "0"@)],
        None => Seq::empty(),
    }
}

impl ClientSettings {
    /// The settings of ClickHouse that go with every insert, by name.
    pub fn options(&self) -> (r: Vec<(String, String)>)
        ensures
            r@.map_values(|p: (String, String)| (p.0@, p.1@)) == insert_settings(
                self.skip_unknown_fields,
            ),
    {
        let ghost f = |p: (String, String)| (p.0@, p.1@);
        let mut r: Vec<(String, String)> = Vec::new();
        match self.skip_unknown_fields {
            Some(skip) => {
                let value = if skip {
                    copy("1")
                } else {
                    copy("0")
                };
                r.push((copy("input_format_skip_unknown_fields"), value));
            },
            None => {},
        }
        assert(r@.map_values(f) =~= insert_settings(self.skip_unknown_fields));
        r
    }
}

/// How many batches are delivered at once.
pub const CONCURRENCY_LIMIT: usize = 4;

/// How many batches wait for delivery.
pub const BUFFER_SIZE: usize = 1024;

/// Where metrics are delivered to, in batches of settings `B`.
#[derive(Debug)]
pub struct ClickhouseMetricsSink<B> {
    client: ClientSettings,
    batch_settings: B,
    table: Template,
    database: Template,
}

impl<B> ClickhouseMetricsSink<B> {
    /// How ClickHouse is reached.
    pub closed spec fn client(&self) -> ClientSettings {
        self.client
    }

    /// How batches are made.
    pub closed spec fn batch_settings(&self) -> B {
        self.batch_settings
    }

    /// The template of the table.
    pub closed spec fn table(&self) -> Template {
        self.table
    }

    /// The template of the database.
    pub closed spec fn database(&self) -> Template {
        self.database
    }

    /// Delivers to the endpoint with a user and a password. Tokens are refused.
    pub fn new(
        endpoint: String,
        auth: Auth,
        database: Template,
        table: Template,
        batch_settings: B,
    ) -> (r: Result<ClickhouseMetricsSink<B>, ClickhouseMetricsError>)
        ensures
            match auth {
                Auth::Basic { user, password } => {
                    &&& r matches Ok(s)
                    &&& s.client().url == endpoint
                    &&& s.client().user == user
                    &&& s.client().password == password
                    &&& s.client().skip_unknown_fields is None
                    &&& s.batch_settings() == batch_settings
                    &&& s.table() == table
                    &&& s.database() == database
                },
                Auth::Bearer { .. } => r matches Err(e) && e@ == ErrorView::BearerUnsupported,
            },
    {
        match auth {
            Auth::Basic { user, password } => {
                let client = ClientSettings {
                    url: endpoint,
                    user,
                    password,
                    skip_unknown_fields: None,
                };
                Ok(ClickhouseMetricsSink { client, batch_settings, table, database })
            },
            Auth::Bearer { .. } => Err(ClickhouseMetricsError::BearerUnsupported),
        }
    }

    /// The same, where fields that a table does not have are ignored or not, or as
    /// ClickHouse has it.
    pub fn with_skip_unknown_fields(self, skip: Option<bool>) -> (r: ClickhouseMetricsSink<B>)
        ensures
            r.client() == (ClientSettings { skip_unknown_fields: skip, ..self.client() }),
            r.batch_settings() == self.batch_settings(),
            r.table() == self.table(),
            r.database() == self.database(),
    {
        let client = ClientSettings {
            url: self.client.url,
            user: self.client.user,
            password: self.client.password,
            skip_unknown_fields: skip,
        };
        ClickhouseMetricsSink {
            client,
            batch_settings: self.batch_settings,
            table: self.table,
            database: self.database,
        }
    }

    /// How ClickHouse is reached, where events go, and how batches are made.
    pub fn into_parts(self) -> (r: (ClientSettings, KeyPartitioner, B))
        ensures
            r.0 == self.client(),
            r.1.database() == self.database(),
            r.1.table() == self.table(),
            r.2 == self.batch_settings(),
    {
        (self.client, KeyPartitioner::new(self.database, self.table), self.batch_settings)
    }
}

/// Whether unknown fields are skipped is handed on where it is configured, as `1` for
/// yes and `0` for no, and else left to ClickHouse.
pub proof fn law_unknown_fields_are_skipped_as_configured(skip: Option<bool>)
    ensures
        skip is None ==> insert_settings(skip).len() == 0,
        skip is Some ==> insert_settings(skip).len() == 1 && insert_settings(skip)[0].0
            == "input_format_skip_unknown_fields"@,
        skip == Some(true) ==> insert_settings(skip)[0].1 == "1"@,
        skip == Some(false) ==> insert_settings(skip)[0].1 == "0"@,
{
}

} // verus!
