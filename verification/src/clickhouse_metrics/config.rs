//! Configuration.
use vstd::prelude::*;

use super::errors::{error_message, ClickhouseMetricsError, ErrorView};
use super::service::Template;
use super::sink::{Auth, ClickhouseMetricsSink};
use crate::text::copy;

verus! {

/// Where metrics are delivered to.
#[derive(Clone, Debug)]
pub struct ClickhouseMetricsConfig {
    /// Where ClickHouse is.
    pub endpoint: String,
    /// The table.
    pub table: Template,
    /// The database.
    pub database: Option<Template>,
    /// Whether ClickHouse ignores fields that the table does not have. As ClickHouse
    /// has it, where absent.
    pub skip_unknown_fields: Option<bool>,
    /// The credentials.
    pub auth: Option<Auth>,
    /// Whether delivery is confirmed.
    pub acknowledgements: bool,
}

impl Default for ClickhouseMetricsConfig {
    fn default() -> (r: ClickhouseMetricsConfig)
        ensures
            r.endpoint@ == "/"@,
            r.table.source@ == ""@,
            r.database is None,
            r.skip_unknown_fields is None,
            r.auth is None,
            !r.acknowledgements,
    {
        ClickhouseMetricsConfig {
            endpoint: copy("/"),
            table: Template { source: copy("") },
            database: None,
            skip_unknown_fields: None,
            auth: None,
            acknowledgements: false,
        }
    }
}

/// Why the sink cannot be made.
#[derive(Debug)]
pub enum BuildError {
    /// There are two credentials.
    TwoCredentials,
    /// Something else.
    Sink(ClickhouseMetricsError),
}

impl BuildError {
    /// What the error says.
    pub fn message(&self) -> (r: String)
        ensures
            r@ == (match *self {
                BuildError::TwoCredentials => "Two authorization credentials was provided."@,
                BuildError::Sink(e) => error_message(e@),
            }),
    {
        match self {
            BuildError::TwoCredentials => copy("Two authorization credentials was provided."),
            BuildError::Sink(e) => e.message(),
        }
    }
}

/// That `r` are the credentials that are used.
pub open spec fn chooses(
    r: Result<Option<Auth>, BuildError>,
    own: Option<Auth>,
    of_endpoint: Option<Auth>,
) -> bool {
    if own is Some && of_endpoint is Some {
        r matches Err(e) && e is TwoCredentials
    } else if own is Some {
        r == Ok::<Option<Auth>, BuildError>(own)
    } else {
        r == Ok::<Option<Auth>, BuildError>(of_endpoint)
    }
}

/// The credentials, which may stand in the configuration or in the endpoint, but not
/// in both.
pub fn choose_auth(own: Option<Auth>, of_endpoint: Option<Auth>) -> (r: Result<
    Option<Auth>,
    BuildError,
>)
    ensures
        match (own, of_endpoint) {
            (Some(_), Some(_)) => r matches Err(e) && e is TwoCredentials,
            (Some(a), None) => r == Ok::<Option<Auth>, BuildError>(Some(a)),
            (None, o) => r == Ok::<Option<Auth>, BuildError>(o),
        },
        chooses(r, own, of_endpoint),
{
    match (own, of_endpoint) {
        (Some(_), Some(_)) => Err(BuildError::TwoCredentials),
        (Some(a), None) => Ok(Some(a)),
        (None, o) => Ok(o),
    }
}

/// What is made of the configuration: refused without credentials, with two, or with
/// a token.
pub open spec fn build_fits<B>(
    c: ClickhouseMetricsConfig,
    endpoint: String,
    of_endpoint: Option<Auth>,
    batch: B,
    r: Result<ClickhouseMetricsSink<B>, BuildError>,
) -> bool {
    match (c.auth, of_endpoint) {
        (Some(_), Some(_)) => r matches Err(e) && e is TwoCredentials,
        (None, None) => r matches Err(BuildError::Sink(e)) && e@ == ErrorView::EmptyAuth,
        (a, b) => match if a is Some {
            a->0
        } else {
            b->0
        } {
            Auth::Bearer { .. } => r matches Err(BuildError::Sink(e)) && e@
                == ErrorView::BearerUnsupported,
            Auth::Basic { user, password } => {
                &&& r matches Ok(s)
                &&& s.client().url == endpoint
                &&& s.client().user == user
                &&& s.client().password == password
                &&& s.client().skip_unknown_fields == c.skip_unknown_fields
                &&& s.batch_settings() == batch
                &&& s.table() == c.table
                &&& match c.database {
                    Some(d) => s.database() == d,
                    None => s.database().source@ == "default"@,
                }
            },
        },
    }
}

impl ClickhouseMetricsConfig {
    /// The sink, with the endpoint written out in full, the credentials in it, and how
    /// batches are made. The database is `default` where none is configured.
    pub fn build<B>(self, endpoint: String, of_endpoint: Option<Auth>, batch_settings: B) -> (r:
        Result<ClickhouseMetricsSink<B>, BuildError>)
        ensures
            build_fits(self, endpoint, of_endpoint, batch_settings, r),
    {
        let auth = match choose_auth(self.auth, of_endpoint) {
            Ok(Some(a)) => a,
            Ok(None) => {
                return Err(BuildError::Sink(ClickhouseMetricsError::EmptyAuth));
            },
            Err(e) => {
                return Err(e);
            },
        };
        let database = match self.database {
            Some(d) => d,
            None => Template { source: copy("default") },
        };
        match ClickhouseMetricsSink::new(endpoint, auth, database, self.table, batch_settings) {
            Ok(s) => Ok(s.with_skip_unknown_fields(self.skip_unknown_fields)),
            Err(e) => Err(BuildError::Sink(e)),
        }
    }

    /// Whether delivery is confirmed.
    pub fn acknowledgements(&self) -> (r: bool)
        ensures
            r == self.acknowledgements,
    {
        self.acknowledgements
    }
}

/// Whether ClickHouse can be delivered to: that is taken for granted.
pub fn healthcheck() -> (r: Result<(), ()>)
    ensures
        r is Ok,
{
    Ok(())
}

/// The sink is made with the one user and password that there are, in the
/// configuration or in the endpoint, for the configured table and database.
pub proof fn law_sink_is_made_with_the_only_credentials<B>(
    c: ClickhouseMetricsConfig,
    endpoint: String,
    of_endpoint: Option<Auth>,
    batch: B,
    r: Result<ClickhouseMetricsSink<B>, BuildError>,
    user: String,
    password: String,
)
    requires
        build_fits(c, endpoint, of_endpoint, batch, r),
    ensures
        ({
            let given = Auth::Basic { user, password };
            (c.auth == Some(given) && of_endpoint is None) || (c.auth is None && of_endpoint == Some(
                given,
            )) ==> (r matches Ok(s) && {
                &&& s.client().url == endpoint
                &&& s.client().user == user
                &&& s.client().password == password
                &&& s.client().skip_unknown_fields == c.skip_unknown_fields
                &&& s.batch_settings() == batch
                &&& s.table() == c.table
                &&& c.database matches Some(d) ==> s.database() == d
                &&& c.database is None ==> s.database().source@ == "default"@
            })
        }),
        c.auth is Some && of_endpoint is Some ==> (r matches Err(e) && e is TwoCredentials),
        c.auth is None && of_endpoint is None ==> (r matches Err(BuildError::Sink(e)) && e@
            == ErrorView::EmptyAuth),
        (c.auth matches Some(a) && a is Bearer) && of_endpoint is None || (
        of_endpoint matches Some(a) && a is Bearer) && c.auth is None ==> (
        r matches Err(BuildError::Sink(e)) && e@ == ErrorView::BearerUnsupported),
{
}

/// Credentials may stand on either side, wherever they stand the same ones are used, and
/// none are used where there are none; they may not stand on both.
pub proof fn law_credentials_stand_on_one_side(r: Result<Option<Auth>, BuildError>, a: Auth, b: Auth)
    ensures
        chooses(r, Some(a), None) <==> r == Ok::<Option<Auth>, BuildError>(Some(a)),
        chooses(r, None, Some(a)) <==> r == Ok::<Option<Auth>, BuildError>(Some(a)),
        chooses(r, None, None) <==> r == Ok::<Option<Auth>, BuildError>(None),
        chooses(r, Some(a), Some(b)) <==> r is Err && r->Err_0 is TwoCredentials,
{
}

} // verus!
