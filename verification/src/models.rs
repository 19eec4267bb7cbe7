//! The application records the registry stores.

use vstd::prelude::*;

verus! {

/// A registered API caller. Times are Unix seconds; the identifier is the
/// internal 128-bit one, distinct from the 64-bit key the registry is looked
/// up by.
#[derive(Debug, PartialEq, Eq)]
pub struct Application {
    /// Application ID.
    pub id: u128,
    /// Whether the application is active or not.
    pub active: bool,
    /// Creation timestamp.
    pub creation: i64,
    /// Last update timestamp.
    pub last_update: i64,
    /// Application name.
    pub name: String,
    /// Application description.
    pub description: String,
    /// Optional URL of the application.
    pub url: Option<String>,
    /// Application's secret, used as an HMAC key by callers. Never echoed.
    pub api_secret: Vec<u8>,
    /// Hourly request limit.
    pub hourly_limit: i32,
    /// Manager ID.
    pub manager: i32,
}

impl Application {
    /// The record invariant: the hourly limit is positive.
    pub open spec fn wf(self) -> bool {
        self.hourly_limit >= 1
    }

    /// Creates an application record.
    pub fn new(
        id: u128,
        active: bool,
        creation: i64,
        last_update: i64,
        name: String,
        description: String,
        url: Option<String>,
        api_secret: Vec<u8>,
        hourly_limit: i32,
        manager: i32,
    ) -> (r: Application)
        requires
            hourly_limit >= 1,
        ensures
            r == (Application {
                id,
                active,
                creation,
                last_update,
                name,
                description,
                url,
                api_secret,
                hourly_limit,
                manager,
            }),
            r.wf(),
    {
        Application {
            id,
            active,
            creation,
            last_update,
            name,
            description,
            url,
            api_secret,
            hourly_limit,
            manager,
        }
    }

    /// Gets the application ID.
    pub fn id(&self) -> (r: u128)
        ensures
            r == self.id,
    {
        self.id
    }

    /// Gets whether the application is active or not.
    pub fn is_active(&self) -> (r: bool)
        ensures
            r == self.active,
    {
        self.active
    }

    /// Gets the creation timestamp.
    pub fn creation(&self) -> (r: i64)
        ensures
            r == self.creation,
    {
        self.creation
    }

    /// Gets the last update timestamp.
    pub fn last_update(&self) -> (r: i64)
        ensures
            r == self.last_update,
    {
        self.last_update
    }

    /// Gets the application name.
    pub fn name(&self) -> (r: &str)
        ensures
            r@ == self.name@,
    {
        self.name.as_str()
    }

    /// Gets the application description.
    pub fn description(&self) -> (r: &str)
        ensures
            r@ == self.description@,
    {
        self.description.as_str()
    }

    /// Gets the URL of the application.
    pub fn url(&self) -> (r: Option<&str>)
        ensures
            match r {
                Some(u) => self.url matches Some(v) && u@ == v@,
                None => self.url is None,
            },
    {
        match &self.url {
            Some(url) => Some(url.as_str()),
            None => None,
        }
    }

    /// Gets the API secret.
    pub fn api_secret(&self) -> (r: &[u8])
        ensures
            r@ == self.api_secret@,
    {
        self.api_secret.as_slice()
    }

    /// Gets the hourly request limit.
    pub fn hourly_limit(&self) -> (r: i32)
        ensures
            r == self.hourly_limit,
    {
        self.hourly_limit
    }

    /// Gets the ID of the manager user.
    pub fn manager_id(&self) -> (r: i32)
        ensures
            r == self.manager,
    {
        self.manager
    }
}

/// The data a new application is created from.
#[derive(Debug, PartialEq, Eq)]
pub struct NewApplication {
    /// Application name.
    pub name: String,
    /// Application description.
    pub description: String,
    /// Optional URL of the application.
    pub url: Option<String>,
    /// Application's secret.
    pub api_secret: Vec<u8>,
    /// Hourly request limit.
    pub hourly_limit: i32,
    /// Manager ID.
    pub manager: i32,
}

impl NewApplication {
    /// Creates the data for a new application.
    pub fn new(
        name: String,
        description: String,
        url: Option<String>,
        api_secret: Vec<u8>,
        hourly_limit: i32,
        manager: i32,
    ) -> (r: NewApplication)
        requires
            hourly_limit >= 1,
        ensures
            r == (NewApplication { name, description, url, api_secret, hourly_limit, manager }),
    {
        NewApplication { name, description, url, api_secret, hourly_limit, manager }
    }
}

} // verus!
