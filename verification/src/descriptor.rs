//! The database descriptor: where the server is, which database on it is
//! the target, and which one serves to create and drop the target.

use vstd::prelude::*;

verus! {

/// `url::Url`, a parsed URL. Nothing of its contents is visible here.
#[verifier::external_type_specification]
#[verifier::external_body]
pub struct ExUrl(url::Url);

/// `url::ParseError`, the reason for which `url::Url::parse` rejects a
/// text. Nothing of its contents is visible here.
#[verifier::external_type_specification]
#[verifier::external_body]
pub struct ExParseError(url::ParseError);

/// Whether `url::Url::parse` accepts `input` as an absolute URL.
pub uninterp spec fn url_parses(input: Seq<char>) -> bool;

/// `url::Url::parse` decides on the text of its argument alone whether it
/// is an absolute URL: it returns `Ok` exactly for the texts that
/// `url_parses` stands for. Nothing is claimed of which texts those are,
/// nor of what an accepted URL holds. This is assumed, not proved.
pub assume_specification[ url::Url::parse ](input: &str) -> (parsed: Result<
    url::Url,
    url::ParseError,
>)
    ensures
        parsed is Ok <==> url_parses(input@),
;

/// Why connection parameters do not make a descriptor.
#[derive(Debug, Clone, Copy, PartialEq, Eq, Structural)]
pub enum ConfigError {
    /// The connection string is not a URL.
    InvalidUrl,
    /// The connection parameters name no database.
    MissingDatabase,
}

/// The two databases of a server that an operation may connect to.
#[derive(Debug, Clone, Copy, PartialEq, Eq, Structural)]
pub enum DatabaseRole {
    /// The database that holds the schema, the ledger and the seeds.
    Target,
    /// The database from which the target is created and dropped, since
    /// no connection can drop or create the database it is attached to.
    Administrative,
}

/// Connection parameters together with the resolved name of the target
/// database.
#[derive(Debug, Clone, PartialEq, Eq)]
pub struct DatabaseDescriptor {
    connection_string: String,
    database: String,
}

/// A descriptor, with its texts as sequences of characters.
pub struct DescriptorView {
    pub connection_string: Seq<char>,
    pub database: Seq<char>,
}

impl View for DatabaseDescriptor {
    type V = DescriptorView;

    closed spec fn view(&self) -> DescriptorView {
        DescriptorView { connection_string: self.connection_string@, database: self.database@ }
    }
}

/// The name of the administrative database, the same on every server.
pub open spec fn administrative_database() -> Seq<char> {
    "postgres"@
}

/// The statement that drops the database `database`.
pub open spec fn drop_statement_of(database: Seq<char>) -> Seq<char> {
    "DROP DATABASE "@ + database
}

/// The statement that creates the database `database`.
pub open spec fn create_statement_of(database: Seq<char>) -> Seq<char> {
    "CREATE DATABASE "@ + database
}

impl DatabaseDescriptor {
    /// The descriptor for a connection string that was found to be a URL
    /// or not (`well_formed`), and the database name that the connection
    /// parameters resolve to, if they name one.
    pub fn checked(connection_string: &str, well_formed: bool, database: Option<&str>) -> (result: Result<
        DatabaseDescriptor,
        ConfigError,
    >)
        ensures
            match result {
                Ok(descriptor) => {
                    &&& well_formed
                    &&& database matches Some(name) && descriptor@ == (DescriptorView {
                        connection_string: connection_string@,
                        database: name@,
                    })
                },
                Err(ConfigError::InvalidUrl) => !well_formed,
                Err(ConfigError::MissingDatabase) => well_formed && database is None,
            },
    {
        if !well_formed {
            return Err(ConfigError::InvalidUrl);
        }
        match database {
            None => Err(ConfigError::MissingDatabase),
            Some(name) => Ok(
                DatabaseDescriptor {
                    connection_string: String::from_str(connection_string),
                    database: String::from_str(name),
                },
            ),
        }
    }

    /// The descriptor for a connection string and the database name that
    /// the connection parameters resolve to, if they name one.
    ///
    /// Fails with `InvalidUrl` where the connection string is not a URL,
    /// and with `MissingDatabase` where it is one and no database is named.
    pub fn new(connection_string: &str, database: Option<&str>) -> (result: Result<
        DatabaseDescriptor,
        ConfigError,
    >)
        ensures
            match result {
                Ok(descriptor) => {
                    &&& url_parses(connection_string@)
                    &&& database matches Some(name) && descriptor@ == (DescriptorView {
                        connection_string: connection_string@,
                        database: name@,
                    })
                },
                Err(ConfigError::InvalidUrl) => !url_parses(connection_string@),
                Err(ConfigError::MissingDatabase) => url_parses(connection_string@) && database
                    is None,
            },
    {
        let well_formed = match url::Url::parse(connection_string) {
            Ok(_) => true,
            Err(_) => false,
        };
        DatabaseDescriptor::checked(connection_string, well_formed, database)
    }

    /// The connection string.
    pub fn connection_string(&self) -> (connection_string: &str)
        ensures
            connection_string@ == self@.connection_string,
    {
        self.connection_string.as_str()
    }

    /// The name of the target database.
    pub fn database(&self) -> (database: &str)
        ensures
            database@ == self@.database,
    {
        self.database.as_str()
    }

    /// The name of the database to connect to in the given role: the
    /// target's own name, or the fixed administrative one.
    pub fn database_for(&self, role: DatabaseRole) -> (database: String)
        ensures
            database@ == match role {
                DatabaseRole::Target => self@.database,
                DatabaseRole::Administrative => administrative_database(),
            },
    {
        match role {
            DatabaseRole::Target => self.database.clone(),
            DatabaseRole::Administrative => String::from_str("postgres"),
        }
    }

    /// The statement that drops the target database, to be issued on the
    /// administrative connection.
    pub fn drop_statement(&self) -> (statement: String)
        ensures
            statement@ == drop_statement_of(self@.database),
    {
        String::from_str("DROP DATABASE ").concat(self.database.as_str())
    }

    /// The statement that creates the target database, to be issued on
    /// the administrative connection.
    pub fn create_statement(&self) -> (statement: String)
        ensures
            statement@ == create_statement_of(self@.database),
    {
        String::from_str("CREATE DATABASE ").concat(self.database.as_str())
    }
}

} // verus!
